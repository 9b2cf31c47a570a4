//! Node identities: the keys under which expand states are kept.
//!
//! A node has no object of its own that outlives a render, so its identity is
//! derived from where it stands: from the identity of the tree it is rendered
//! in and the path of segments that leads to it.

use crate::text::{
    all_slash_free, hex, hex_text, joined, joined_text, lemma_hex_is_injective, lemma_hex_len,
    lemma_joined_is_injective, sixteen_to, texts,
};
use vstd::prelude::*;

verus! {

/// The hash that the toolkit's `Id::unique` gives to a text, as the value of
/// the resulting id. The toolkit hashes with constant seeds, so the value is
/// fixed by the text alone; which variant of the hash is compiled in goes by
/// the build target, so it is the value in the build at hand.
pub uninterp spec fn text_hash(text: Seq<char>) -> u64;

/// Calls `egui::Id::unique` on `text` and takes the value of the id.
///
/// Not proved: that the result is the toolkit's hash of the characters of
/// `text` and of nothing else, which is what `text_hash` names.
#[verifier::external_body]
fn hash_text(text: &str) -> (id: u64)
    ensures
        id == text_hash(text@),
{
    egui::Id::unique(text).value()
}

/// The textual form of an identity: its sixteen digits in base sixteen.
pub open spec fn id_text(id: u64) -> Seq<char> {
    hex(id as nat, 16)
}

/// The text that is hashed for the node at `path` in the tree `id`: the
/// textual form of `id`, a hyphen, and the segments joined by `/`.
pub open spec fn id_source(id: u64, path: Seq<Seq<char>>) -> Seq<char> {
    id_text(id) + seq!['-'] + joined(path)
}

/// The identity of the node at `path` in the tree `id`.
pub open spec fn node_identity(id: u64, path: Seq<Seq<char>>) -> u64 {
    text_hash(id_source(id, path))
}

/// Derives the identity of the node at `path` in the tree `id`.
pub fn generate_id(id: u64, path: &[String]) -> (node: u64)
    ensures
        node == node_identity(id, texts(path@)),
{
    let mut source: String = hex_text(id, 16);
    source.append("-");
    let tail: String = joined_text(path);
    source.append(tail.as_str());
    proof {
        reveal_strlit("-");
        assert(source@ =~= id_source(id, texts(path@)));
    }
    hash_text(source.as_str())
}

/// Equal trees and equal paths give equal identities.
pub proof fn lemma_identity_is_determined(
    id_a: u64,
    path_a: Seq<Seq<char>>,
    id_b: u64,
    path_b: Seq<Seq<char>>,
)
    requires
        id_a == id_b,
        path_a == path_b,
    ensures
        node_identity(id_a, path_a) == node_identity(id_b, path_b),
{
}

/// Whether the text hashed for `path` tells it from every other such path:
/// no segment holds the separator `/`, and the path is not the single empty
/// segment, which is joined to the same text as the empty path.
pub open spec fn separable(path: Seq<Seq<char>>) -> bool {
    all_slash_free(path) && !(path.len() == 1 && path[0].len() == 0)
}

/// Different nodes are hashed from different texts: where two separable
/// paths in two trees give the same text, the trees and the paths are the
/// same. Identities of different nodes then coincide only where the hash
/// does.
pub proof fn lemma_id_source_is_injective(
    id_a: u64,
    path_a: Seq<Seq<char>>,
    id_b: u64,
    path_b: Seq<Seq<char>>,
)
    requires
        separable(path_a),
        separable(path_b),
        id_source(id_a, path_a) == id_source(id_b, path_b),
    ensures
        id_a == id_b,
        path_a == path_b,
{
    let source_a = id_source(id_a, path_a);
    let source_b = id_source(id_b, path_b);
    lemma_hex_len(id_a as nat, 16);
    lemma_hex_len(id_b as nat, 16);
    assert(source_a.subrange(0, 16) =~= id_text(id_a));
    assert(source_b.subrange(0, 16) =~= id_text(id_b));
    assert(sixteen_to(16) == 0x1_0000_0000_0000_0000) by {
        reveal_with_fuel(sixteen_to, 17);
    }
    lemma_hex_is_injective(id_a as nat, id_b as nat, 16);
    assert(source_a.subrange(17, source_a.len() as int) =~= joined(path_a));
    assert(source_b.subrange(17, source_b.len() as int) =~= joined(path_b));
    assert(joined(path_a) == joined(path_b));
    if path_a.len() >= 1 && path_b.len() >= 1 {
        lemma_joined_is_injective(path_a, path_b);
    } else if path_a.len() == 0 && path_b.len() == 0 {
        assert(path_a =~= path_b);
    } else {
        let longer = if path_a.len() == 0 {
            path_b
        } else {
            path_a
        };
        assert(joined(longer).len() == 0);
        if longer.len() >= 2 {
            let text = joined(longer.drop_last()) + seq!['/'] + longer.last();
            assert(text.len() >= 1);
        }
        assert(false);
    }
}

} // verus!
