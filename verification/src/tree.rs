//! The renderer: from a value and the expand states to the elements of one
//! frame.

use crate::delimiters::Delimiters;
use crate::element::{Child, Element, Indent};
use crate::identity::generate_id;
use crate::render::{
    child_id, child_path, leaf_label, rendered, rendered_child, visited, visited_below,
};
use crate::store::{initialized, open_ids, ExpandStore};
use crate::text::texts;
use crate::value::{is_expandable, Value};
use vstd::prelude::*;

verus! {

/// A render of one value tree: the identity under which the tree's expand
/// states are kept, the label of the node being rendered, and the state that
/// a node is given when it is first met.
pub struct JsonTree {
    id: u64,
    prefix: Option<String>,
    default_open: bool,
}

impl JsonTree {
    /// The identity of the tree.
    pub closed spec fn spec_id(&self) -> u64 {
        self.id
    }

    /// The label of the node being rendered; none at the root.
    pub closed spec fn spec_prefix(&self) -> Option<Seq<char>> {
        match self.prefix {
            Some(p) => Some(p@),
            None => None,
        }
    }

    /// Whether a node that has no state yet is expanded.
    pub closed spec fn spec_default_open(&self) -> bool {
        self.default_open
    }

    /// A tree with the identity `id`, without a prefix, whose nodes start
    /// collapsed.
    pub fn new(id: u64) -> (tree: JsonTree)
        ensures
            tree.spec_id() == id,
            tree.spec_prefix() == None::<Seq<char>>,
            !tree.spec_default_open(),
    {
        JsonTree { id, prefix: None, default_open: false }
    }

    /// Sets whether nodes start expanded.
    pub fn default_open(self, default_open: bool) -> (tree: JsonTree)
        ensures
            tree.spec_id() == self.spec_id(),
            tree.spec_prefix() == self.spec_prefix(),
            tree.spec_default_open() == default_open,
    {
        JsonTree { id: self.id, prefix: self.prefix, default_open }
    }

    /// Sets the label of the node being rendered.
    fn prefix(self, prefix: String) -> (tree: JsonTree)
        ensures
            tree.spec_id() == self.spec_id(),
            tree.spec_prefix() == Some(prefix@),
            tree.spec_default_open() == self.spec_default_open(),
    {
        JsonTree { id: self.id, prefix: Some(prefix), default_open: self.default_open }
    }

    /// Renders `value` as the root of the tree: emits its elements for one
    /// frame and creates, as the default, the state of every container met
    /// that had none.
    pub fn show(self, store: &mut ExpandStore, value: &Value) -> (element: Element)
        ensures
            element@ == rendered(
                self.spec_id(),
                Seq::empty(),
                self.spec_prefix(),
                *value,
                open_ids(old(store)@, self.spec_default_open()),
            ),
            final(store)@ == initialized(
                old(store)@,
                visited(
                    self.spec_id(),
                    Seq::empty(),
                    *value,
                    open_ids(old(store)@, self.spec_default_open()),
                ),
                self.spec_default_open(),
            ),
    {
        let mut path: Vec<String> = Vec::new();
        assert(texts(path@) =~= Seq::<Seq<char>>::empty());
        self.show_inner(store, &mut path, value)
    }

    /// Renders `value` as the node at `path`. The path is extended while a
    /// child is rendered and is the same again on return.
    fn show_inner(
        &self,
        store: &mut ExpandStore,
        path: &mut Vec<String>,
        value: &Value,
    ) -> (element: Element)
        ensures
            element@ == rendered(
                self.spec_id(),
                texts(old(path)@),
                self.spec_prefix(),
                *value,
                open_ids(old(store)@, self.spec_default_open()),
            ),
            final(store)@ == initialized(
                old(store)@,
                visited(
                    self.spec_id(),
                    texts(old(path)@),
                    *value,
                    open_ids(old(store)@, self.spec_default_open()),
                ),
                self.spec_default_open(),
            ),
            final(path)@ == old(path)@,
        decreases *value, 1nat,
    {
        if is_expandable(value) {
            let delimiters: Delimiters = value.to_delimiters();
            self.show_expandable(store, path, value, delimiters)
        } else {
            let mut label: String = match &self.prefix {
                Some(p) => p.clone(),
                None => String::new(),
            };
            label.append(": ");
            let text: String = value.to_leaf_text();
            label.append(text.as_str());
            proof {
                reveal_strlit(": ");
                assert(label@ =~= leaf_label(self.spec_prefix(), value.leaf_text()));
                assert(store@ =~= initialized(
                    store@,
                    Set::<u64>::empty(),
                    self.spec_default_open(),
                ));
            }
            Element::Leaf { label }
        }
    }

    /// Renders the container `value`: loads its state, emits the header, and,
    /// if it is expanded, renders each child in order at the extended path.
    fn show_expandable(
        &self,
        store: &mut ExpandStore,
        path: &mut Vec<String>,
        value: &Value,
        delimiters: Delimiters,
    ) -> (element: Element)
        requires
            value.is_container(),
            delimiters@ == value.delimiters(),
        ensures
            element@ == rendered(
                self.spec_id(),
                texts(old(path)@),
                self.spec_prefix(),
                *value,
                open_ids(old(store)@, self.spec_default_open()),
            ),
            final(store)@ == initialized(
                old(store)@,
                visited(
                    self.spec_id(),
                    texts(old(path)@),
                    *value,
                    open_ids(old(store)@, self.spec_default_open()),
                ),
                self.spec_default_open(),
            ),
            final(path)@ == old(path)@,
        decreases *value, 0nat,
    {
        let ghost states = store@;
        let ghost open = open_ids(states, self.default_open);
        let ghost at = texts(path@);
        let ghost start = path@;

        let node: u64 = generate_id(self.id, path.as_slice());
        let expanded: bool = store.load_with_default(node, self.default_open);
        let heading: Option<String> = match &self.prefix {
            Some(p) => {
                let mut l: String = p.clone();
                l.append(":");
                proof {
                    reveal_strlit(":");
                    assert(l@ =~= p@.push(':'));
                }
                Some(l)
            },
            None => None,
        };
        let mut body: Vec<Child> = Vec::new();
        proof {
            assert(store@ =~= initialized(
                states,
                Set::<u64>::empty().insert(node),
                self.default_open,
            ));
        }
        if expanded {
            let n: usize = value.len();
            let mut i: usize = 0;
            while i < n
                invariant
                    i <= n,
                    n == value.child_count(),
                    value.is_container(),
                    path@ == start,
                    at == texts(start),
                    open == open_ids(states, self.default_open),
                    open.contains(node),
                    store@ == initialized(
                        states,
                        visited_below(self.id, at, *value, i as nat, open).insert(node),
                        self.default_open,
                    ),
                    body@.len() == i,
                    forall|j: int|
                        0 <= j < i ==> (#[trigger] body@[j])@ == rendered_child(
                            self.id,
                            at,
                            *value,
                            j,
                            open,
                        ),
                decreases n - i,
            {
                let ghost before = store@;
                let segment: Option<String> = value.segment_at(i);
                path.push(segment.unwrap());
                proof {
                    assert(texts(path@) =~= child_path(at, *value, i as int));
                    assert(open_ids(before, self.default_open) =~= open);
                }
                let label: Option<String> = value.label_at(i);
                let child_tree: u64 = generate_id(self.id, path.as_slice());
                let nested: JsonTree = JsonTree::new(child_tree).default_open(
                    self.default_open,
                ).prefix(label.unwrap());
                let found: Option<&Value> = value.child_at(i);
                let child: &Value = found.unwrap();
                let element: Element = nested.show_inner(store, path, child);
                path.pop();
                let indent: Indent = if is_expandable(child) {
                    Indent::Flush
                } else {
                    Indent::IconStep
                };
                body.push(Child { indent, element });
                proof {
                    assert(path@ =~= start);
                    let below = visited(
                        child_id(self.id, at, *value, i as int),
                        child_path(at, *value, i as int),
                        value.child(i as int),
                        open,
                    );
                    let so_far = visited_below(self.id, at, *value, i as nat, open);
                    let with_child = visited_below(self.id, at, *value, (i + 1) as nat, open);
                    assert(with_child == so_far.union(below));
                    assert(store@ =~= initialized(
                        states,
                        visited_below(self.id, at, *value, (i + 1) as nat, open).insert(node),
                        self.default_open,
                    ));
                }
                i = i + 1;
            }
        }
        let element: Element = Element::Container { id: node, heading, expanded, delimiters, body };
        proof {
            let want = rendered(self.id, at, self.spec_prefix(), *value, open);
            assert(element@->Container_body =~= want->Container_body);
            assert(element@ == want);
        }
        element
    }
}

} // verus!
