//! What a render emits, as mathematics: the elements that stand for a value
//! under a given set of expanded identities, the identities whose state the
//! render loads, and the laws that hold of both.

use crate::element::{ChildView, ElementView, Indent};
use crate::identity::node_identity;
use crate::store::{initialized, lemma_toggle_twice_restores, open_ids, toggled};
use crate::value::Value;
use vstd::prelude::*;

verus! {

/// The characters of a prefix that may be absent: empty at the root.
pub open spec fn prefix_text(prefix: Option<Seq<char>>) -> Seq<char> {
    match prefix {
        Some(p) => p,
        None => Seq::empty(),
    }
}

/// The label of a leaf: the prefix, a colon and a space, and the textual form
/// of the value.
pub open spec fn leaf_label(prefix: Option<Seq<char>>, text: Seq<char>) -> Seq<char> {
    prefix_text(prefix) + seq![':', ' '] + text
}

/// The heading in the header of a container: the prefix followed by a colon,
/// and nothing at all where there is no prefix.
pub open spec fn heading(prefix: Option<Seq<char>>) -> Option<Seq<char>> {
    match prefix {
        Some(p) => Some(p.push(':')),
        None => None,
    }
}

/// The path of child `i` of the container `value` that stands at `path`.
pub open spec fn child_path(path: Seq<Seq<char>>, value: Value, i: int) -> Seq<Seq<char>> {
    path.push(value.segment(i))
}

/// The identity of the tree in which child `i` is rendered.
pub open spec fn child_id(id: u64, path: Seq<Seq<char>>, value: Value, i: int) -> u64 {
    node_identity(id, child_path(path, value, i))
}

/// What rendering `value` emits, in the tree `id`, at `path`, under `prefix`,
/// when the identities in `open` are expanded.
pub open spec fn rendered(
    id: u64,
    path: Seq<Seq<char>>,
    prefix: Option<Seq<char>>,
    value: Value,
    open: Set<u64>,
) -> ElementView
    decreases value, 1nat,
{
    if value.is_container() {
        let node = node_identity(id, path);
        ElementView::Container {
            id: node,
            heading: heading(prefix),
            expanded: open.contains(node),
            delimiters: value.delimiters(),
            body: if open.contains(node) {
                Seq::new(value.child_count(), |i: int| rendered_child(id, path, value, i, open))
            } else {
                Seq::empty()
            },
        }
    } else {
        ElementView::Leaf { label: leaf_label(prefix, value.leaf_text()) }
    }
}

/// Child `i` in the body of the container `value`: the child is rendered in
/// a tree of its own, at the extended path and under its own label. A
/// container stands flush; a leaf stands inside one extra step of the icon's
/// width and spacing.
pub open spec fn rendered_child(
    id: u64,
    path: Seq<Seq<char>>,
    value: Value,
    i: int,
    open: Set<u64>,
) -> ChildView
    decreases value, 0nat,
{
    if 0 <= i < value.child_count() {
        ChildView {
            indent: if value.child(i).is_container() {
                Indent::Flush
            } else {
                Indent::IconStep
            },
            element: rendered(
                child_id(id, path, value, i),
                child_path(path, value, i),
                Some(value.child_label(i)),
                value.child(i),
                open,
            ),
        }
    } else {
        ChildView::filler()
    }
}

/// The identities whose state a render of `value` loads: that of every
/// container it emits, which are the root and the containers below expanded
/// containers.
pub open spec fn visited(id: u64, path: Seq<Seq<char>>, value: Value, open: Set<u64>) -> Set<u64>
    decreases value, value.child_count() + 1,
{
    if value.is_container() {
        let node = node_identity(id, path);
        if open.contains(node) {
            visited_below(id, path, value, value.child_count(), open).insert(node)
        } else {
            Set::empty().insert(node)
        }
    } else {
        Set::empty()
    }
}

/// The identities loaded while the first `n` children of `value` are
/// rendered.
pub open spec fn visited_below(
    id: u64,
    path: Seq<Seq<char>>,
    value: Value,
    n: nat,
    open: Set<u64>,
) -> Set<u64>
    decreases value, n,
{
    if n == 0 || n > value.child_count() {
        Set::empty()
    } else {
        visited_below(id, path, value, (n - 1) as nat, open).union(
            visited(
                child_id(id, path, value, n - 1),
                child_path(path, value, n - 1),
                value.child(n - 1),
                open,
            ),
        )
    }
}

/// Whether `a` and `b` hold the same of the identities in `ids`.
pub open spec fn agree_on(ids: Set<u64>, a: Set<u64>, b: Set<u64>) -> bool {
    forall|k: u64| ids.contains(k) ==> (a.contains(k) == b.contains(k))
}

/// A render reads no state but those of the identities it loads: two sets of
/// expanded identities that agree on them give the same elements and load
/// the same identities.
pub proof fn lemma_render_reads_visited(
    id: u64,
    path: Seq<Seq<char>>,
    prefix: Option<Seq<char>>,
    value: Value,
    a: Set<u64>,
    b: Set<u64>,
)
    requires
        agree_on(visited(id, path, value, a), a, b),
    ensures
        rendered(id, path, prefix, value, a) == rendered(id, path, prefix, value, b),
        visited(id, path, value, a) == visited(id, path, value, b),
    decreases value, value.child_count() + 1,
{
    if value.is_container() {
        let node = node_identity(id, path);
        assert(visited(id, path, value, a).contains(node));
        if a.contains(node) {
            lemma_children_read_visited(id, path, value, value.child_count(), a, b);
            assert(b.contains(node));
            let body_a = rendered(id, path, prefix, value, a)->Container_body;
            let body_b = rendered(id, path, prefix, value, b)->Container_body;
            assert(body_a.len() == body_b.len());
            assert forall|i: int| 0 <= i < body_a.len() implies body_a[i] == body_b[i] by {
                assert(body_a[i] == rendered_child(id, path, value, i, a));
                assert(body_b[i] == rendered_child(id, path, value, i, b));
            }
            assert(rendered(id, path, prefix, value, a)->Container_body =~= rendered(
                id,
                path,
                prefix,
                value,
                b,
            )->Container_body);
        }
    }
}

/// The same of the first `n` children of a container.
proof fn lemma_children_read_visited(
    id: u64,
    path: Seq<Seq<char>>,
    value: Value,
    n: nat,
    a: Set<u64>,
    b: Set<u64>,
)
    requires
        n <= value.child_count(),
        agree_on(visited_below(id, path, value, n, a), a, b),
    ensures
        visited_below(id, path, value, n, a) == visited_below(id, path, value, n, b),
        forall|i: int|
            0 <= i < n ==> rendered_child(id, path, value, i, a) == rendered_child(
                id,
                path,
                value,
                i,
                b,
            ),
    decreases value, n,
{
    if n > 0 {
        let last = n - 1;
        lemma_children_read_visited(id, path, value, last as nat, a, b);
        lemma_render_reads_visited(
            child_id(id, path, value, last),
            child_path(path, value, last),
            Some(value.child_label(last)),
            value.child(last),
            a,
            b,
        );
    }
}

/// Two renders of one value in one tree, with nothing toggled in between,
/// emit the same elements, whatever default the second is given; and the
/// second leaves the store as the first left it.
pub proof fn lemma_second_render_is_identical(
    id: u64,
    path: Seq<Seq<char>>,
    prefix: Option<Seq<char>>,
    value: Value,
    states: Map<u64, bool>,
    default_first: bool,
    default_second: bool,
)
    ensures
        ({
            let open = open_ids(states, default_first);
            let after = initialized(states, visited(id, path, value, open), default_first);
            let again = open_ids(after, default_second);
            &&& rendered(id, path, prefix, value, again) == rendered(id, path, prefix, value, open)
            &&& initialized(after, visited(id, path, value, again), default_second) == after
        }),
{
    let open = open_ids(states, default_first);
    let after = initialized(states, visited(id, path, value, open), default_first);
    let again = open_ids(after, default_second);
    assert(agree_on(visited(id, path, value, open), open, again));
    lemma_render_reads_visited(id, path, prefix, value, open, again);
    assert(initialized(after, visited(id, path, value, again), default_second) =~= after);
}

/// A toggle of a container's header shows in the next render: the container
/// at `path` is expanded exactly if it was collapsed before.
pub proof fn lemma_toggle_flips_header(
    id: u64,
    path: Seq<Seq<char>>,
    prefix: Option<Seq<char>>,
    value: Value,
    states: Map<u64, bool>,
    default: bool,
)
    requires
        value.is_container(),
        states.contains_key(node_identity(id, path)),
    ensures
        ({
            let node = node_identity(id, path);
            let before = rendered(id, path, prefix, value, open_ids(states, default));
            let after = rendered(id, path, prefix, value, open_ids(toggled(states, node), default));
            after->expanded == !before->expanded
        }),
{
}

/// Collapsing a node and expanding it again, or the reverse, restores what
/// is rendered: after two toggles of one identity a render emits what it
/// emitted before them.
pub proof fn lemma_two_toggles_restore_render(
    id: u64,
    path: Seq<Seq<char>>,
    prefix: Option<Seq<char>>,
    value: Value,
    states: Map<u64, bool>,
    node: u64,
    default: bool,
)
    ensures
        rendered(id, path, prefix, value, open_ids(toggled(toggled(states, node), node), default))
            == rendered(id, path, prefix, value, open_ids(states, default)),
{
    lemma_toggle_twice_restores(states, node);
}

/// The same over three frames: a render, a toggle of `node`, a render of
/// what is then shown, a second toggle of `node`, and a third render. The
/// third render emits what the first emitted, whatever states the second
/// created on its way.
pub proof fn lemma_round_trip_restores_render(
    id: u64,
    path: Seq<Seq<char>>,
    prefix: Option<Seq<char>>,
    value: Value,
    states: Map<u64, bool>,
    node: u64,
    default: bool,
)
    ensures
        ({
            let first = open_ids(states, default);
            let shown = initialized(states, visited(id, path, value, first), default);
            let second = open_ids(toggled(shown, node), default);
            let reshown = initialized(toggled(shown, node), visited(id, path, value, second), default);
            let third = open_ids(toggled(reshown, node), default);
            rendered(id, path, prefix, value, third) == rendered(id, path, prefix, value, first)
        }),
{
    let first = open_ids(states, default);
    let met = visited(id, path, value, first);
    let shown = initialized(states, met, default);
    let second = open_ids(toggled(shown, node), default);
    let reshown = initialized(toggled(shown, node), visited(id, path, value, second), default);
    let back = toggled(reshown, node);
    let third = open_ids(back, default);
    assert forall|k: u64| met.contains(k) implies first.contains(k) == third.contains(k) by {
        assert(shown.contains_key(k));
        assert(toggled(shown, node).contains_key(k));
        assert(reshown.contains_key(k));
        assert(back.contains_key(k));
        assert(back[k] == shown[k]);
    }
    lemma_render_reads_visited(id, path, prefix, value, first, third);
}

/// The label of the leaf that shows the string `s` under `prefix`.
pub open spec fn string_label(prefix: Option<Seq<char>>, s: String) -> Seq<char> {
    leaf_label(prefix, Value::String(s).leaf_text())
}

/// The label of a string leaf is the prefix, a colon, a space and a quote,
/// then the string itself, then a quote: under one prefix two strings give
/// labels that differ in the payload alone, and different strings give
/// different labels.
pub proof fn lemma_string_leaf_is_injective(prefix: Option<Seq<char>>, a: String, b: String)
    ensures
        string_label(prefix, a) == prefix_text(prefix) + seq![':', ' ', '"'] + a@ + seq!['"'],
        string_label(prefix, b) == prefix_text(prefix) + seq![':', ' ', '"'] + b@ + seq!['"'],
        a@ != b@ ==> string_label(prefix, a) != string_label(prefix, b),
{
    let head = prefix_text(prefix) + seq![':', ' ', '"'];
    let tail = seq!['"'];
    let label_a = string_label(prefix, a);
    let label_b = string_label(prefix, b);
    assert(label_a =~= head + a@ + tail);
    assert(label_b =~= head + b@ + tail);
    if label_a == label_b {
        assert(a@.len() == b@.len()) by {
            assert(label_a.len() == head.len() + a@.len() + 1);
            assert(label_b.len() == head.len() + b@.len() + 1);
        }
        assert forall|i: int| 0 <= i < a@.len() implies a@[i] == b@[i] by {
            assert(label_a[head.len() + i] == a@[i]);
            assert(label_b[head.len() + i] == b@[i]);
        }
        assert(a@ =~= b@);
    }
}

/// Whether a child stands where the indentation policy puts it: a leaf inside
/// the extra step, a container flush.
pub open spec fn placed(child: ChildView) -> bool {
    child.indent == (if child.element is Leaf {
        Indent::IconStep
    } else {
        Indent::Flush
    })
}

/// Whether an element is laid out as the indentation policy asks: a collapsed
/// container has no body, and in every body a leaf stands inside the extra
/// step while a container stands flush.
pub open spec fn laid_out(element: ElementView) -> bool
    decreases element,
{
    match element {
        ElementView::Leaf { .. } => true,
        ElementView::Container { expanded, body, .. } => {
            &&& !expanded ==> body.len() == 0
            &&& forall|i: int|
                0 <= i < body.len() ==> {
                    &&& placed(#[trigger] body[i])
                    &&& laid_out(body[i].element)
                }
        },
    }
}

/// Every render is laid out as the indentation policy asks.
pub proof fn lemma_rendered_is_laid_out(
    id: u64,
    path: Seq<Seq<char>>,
    prefix: Option<Seq<char>>,
    value: Value,
    open: Set<u64>,
)
    ensures
        laid_out(rendered(id, path, prefix, value, open)),
    decreases value,
{
    let element = rendered(id, path, prefix, value, open);
    if value.is_container() && open.contains(node_identity(id, path)) {
        let body = element->Container_body;
        assert forall|i: int| 0 <= i < body.len() implies placed(#[trigger] body[i]) && laid_out(
            body[i].element,
        ) by {
            assert(body[i] == rendered_child(id, path, value, i, open));
            lemma_rendered_is_laid_out(
                child_id(id, path, value, i),
                child_path(path, value, i),
                Some(value.child_label(i)),
                value.child(i),
                open,
            );
        }
    }
}

/// The state of a container is kept under its path, not under its value:
/// whatever container stands at `path`, its header toggles the same identity
/// and finds the state that was left there.
pub proof fn lemma_state_follows_the_path(
    id: u64,
    path: Seq<Seq<char>>,
    prefix: Option<Seq<char>>,
    value: Value,
    other: Value,
    open: Set<u64>,
)
    requires
        value.is_container(),
        other.is_container(),
    ensures
        ({
            let one = rendered(id, path, prefix, value, open);
            let two = rendered(id, path, prefix, other, open);
            one->id == two->id && one->expanded == two->expanded
        }),
{
}

} // verus!
