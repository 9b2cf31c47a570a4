//! The bracket texts that frame a container.

use vstd::prelude::*;

verus! {

/// The three texts of one kind of container: what its header shows while it
/// is expanded, what it shows while it is collapsed, and what closes an
/// expanded body.
#[derive(Clone, Copy, Debug, PartialEq, Eq)]
pub struct Delimiters {
    pub opening: &'static str,
    pub collapsed: &'static str,
    pub closing: &'static str,
}

/// The characters of a set of delimiters.
pub struct DelimitersView {
    pub opening: Seq<char>,
    pub collapsed: Seq<char>,
    pub closing: Seq<char>,
}

impl View for Delimiters {
    type V = DelimitersView;

    open spec fn view(&self) -> DelimitersView {
        DelimitersView {
            opening: self.opening@,
            collapsed: self.collapsed@,
            closing: self.closing@,
        }
    }
}

/// The delimiters of an ordered sequence: `[`, `[...]` and `]`.
pub open spec fn array_delimiters() -> DelimitersView {
    DelimitersView {
        opening: seq!['['],
        collapsed: seq!['[', '.', '.', '.', ']'],
        closing: seq![']'],
    }
}

/// The delimiters of a key-to-value mapping: `{`, `{...}` and `}`.
pub open spec fn object_delimiters() -> DelimitersView {
    DelimitersView {
        opening: seq!['{'],
        collapsed: seq!['{', '.', '.', '.', '}'],
        closing: seq!['}'],
    }
}

impl DelimitersView {
    /// What the header shows: the opening text of an expanded container, the
    /// collapsed text of a collapsed one.
    pub open spec fn header(self, expanded: bool) -> Seq<char> {
        if expanded {
            self.opening
        } else {
            self.collapsed
        }
    }
}

impl Delimiters {
    /// The delimiters of an ordered sequence.
    pub fn array() -> (d: Delimiters)
        ensures
            d@ == array_delimiters(),
    {
        proof {
            reveal_strlit("[");
            reveal_strlit("[...]");
            reveal_strlit("]");
        }
        let d = Delimiters { opening: "[", collapsed: "[...]", closing: "]" };
        assert(d.opening@ =~= array_delimiters().opening);
        assert(d.collapsed@ =~= array_delimiters().collapsed);
        assert(d.closing@ =~= array_delimiters().closing);
        d
    }

    /// The delimiters of a key-to-value mapping.
    pub fn object() -> (d: Delimiters)
        ensures
            d@ == object_delimiters(),
    {
        proof {
            reveal_strlit("{");
            reveal_strlit("{...}");
            reveal_strlit("}");
        }
        let d = Delimiters { opening: "{", collapsed: "{...}", closing: "}" };
        assert(d.opening@ =~= object_delimiters().opening);
        assert(d.collapsed@ =~= object_delimiters().collapsed);
        assert(d.closing@ =~= object_delimiters().closing);
        d
    }

    /// The text that the header of a container shows.
    pub fn header(&self, expanded: bool) -> (text: &'static str)
        ensures
            text@ == self@.header(expanded),
    {
        if expanded {
            self.opening
        } else {
            self.collapsed
        }
    }
}

} // verus!
