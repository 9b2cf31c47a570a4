//! What a render emits: the visual structure of one frame.

use crate::delimiters::{Delimiters, DelimitersView};
use crate::text::option_text;
use vstd::prelude::*;

verus! {

/// How far a row or a block stands to the right of what encloses it, in the
/// metrics of the toolkit that draws it.
#[derive(Clone, Copy, Debug, PartialEq, Eq)]
pub enum Indent {
    /// No indent of its own. A container stands so in a body: the toolkit
    /// indents what can collapse by itself, and the block inherits the
    /// vertical guide line on its left.
    Flush,
    /// One step as wide as the disclosure icon and the icon spacing together,
    /// without a guide line. A leaf stands so in a body, which aligns it with
    /// what its sibling containers show and not with their icons.
    IconStep,
    /// Half the width of the disclosure icon. A closing delimiter stands so,
    /// whatever the indent of its header, and so hangs under the opening one.
    HalfIcon,
}

impl Indent {
    /// The halves of the icon width in the indent.
    pub open spec fn halves(self) -> nat {
        match self {
            Indent::Flush => 0,
            Indent::IconStep => 2,
            Indent::HalfIcon => 1,
        }
    }

    /// The icon spacings in the indent.
    pub open spec fn spacings(self) -> nat {
        match self {
            Indent::IconStep => 1,
            _ => 0,
        }
    }

    /// Whether what stands at this indent has the vertical guide line on its
    /// left.
    pub open spec fn guided(self) -> bool {
        self is Flush
    }

    /// The halves of the icon width to indent by. The width of the indent is
    /// this many halves of the icon width and `icon_spacings` icon spacings.
    pub fn icon_halves(&self) -> (n: u8)
        ensures
            n == self.halves(),
    {
        match self {
            Indent::Flush => 0,
            Indent::IconStep => 2,
            Indent::HalfIcon => 1,
        }
    }

    /// The icon spacings to indent by.
    pub fn icon_spacings(&self) -> (n: u8)
        ensures
            n == self.spacings(),
    {
        match self {
            Indent::IconStep => 1,
            _ => 0,
        }
    }

    /// Whether the guide line is drawn.
    pub fn guide_line(&self) -> (line: bool)
        ensures
            line == self.guided(),
    {
        match self {
            Indent::Flush => true,
            _ => false,
        }
    }
}

/// One rendered node.
#[derive(Debug, PartialEq)]
pub enum Element {
    /// A scalar: a single inline label in a monospaced face, on one line,
    /// neither wrapped nor cut.
    Leaf { label: String },
    /// A container. Its header row toggles the expand state kept under `id`
    /// and shows the heading, if any, in a monospaced face and then the
    /// header text of `delimiters`. If the container is expanded, the body
    /// follows and then a row with the closing delimiter.
    Container {
        id: u64,
        heading: Option<String>,
        expanded: bool,
        delimiters: Delimiters,
        body: Vec<Child>,
    },
}

/// One child in the body of an expanded container, with its place.
#[derive(Debug, PartialEq)]
pub struct Child {
    pub indent: Indent,
    pub element: Element,
}

/// The row that closes an expanded container.
#[derive(Clone, Copy, Debug, PartialEq, Eq)]
pub struct Closing {
    pub indent: Indent,
    pub text: &'static str,
}

/// The mathematical form of an [`Element`].
pub enum ElementView {
    Leaf { label: Seq<char> },
    Container {
        id: u64,
        heading: Option<Seq<char>>,
        expanded: bool,
        delimiters: DelimitersView,
        body: Seq<ChildView>,
    },
}

/// The mathematical form of a [`Child`].
pub struct ChildView {
    pub indent: Indent,
    pub element: ElementView,
}

impl ChildView {
    /// What stands for a child that is not there.
    pub open spec fn filler() -> ChildView {
        ChildView { indent: Indent::Flush, element: ElementView::Leaf { label: Seq::empty() } }
    }
}

/// The mathematical form of a [`Closing`].
pub struct ClosingView {
    pub indent: Indent,
    pub text: Seq<char>,
}

impl View for Element {
    type V = ElementView;

    open spec fn view(&self) -> ElementView
        decreases self,
    {
        match self {
            Element::Leaf { label } => ElementView::Leaf { label: label@ },
            Element::Container { id, heading, expanded, delimiters, body } => {
                ElementView::Container {
                    id: *id,
                    heading: option_text(*heading),
                    expanded: *expanded,
                    delimiters: delimiters@,
                    body: Seq::new(
                        body@.len(),
                        |i: int|
                            if 0 <= i < body@.len() {
                                ChildView {
                                    indent: body@[i].indent,
                                    element: body@[i].element.view(),
                                }
                            } else {
                                ChildView::filler()
                            },
                    ),
                }
            },
        }
    }
}

impl View for Child {
    type V = ChildView;

    open spec fn view(&self) -> ChildView {
        ChildView { indent: self.indent, element: self.element@ }
    }
}

impl View for Closing {
    type V = ClosingView;

    open spec fn view(&self) -> ClosingView {
        ClosingView { indent: self.indent, text: self.text@ }
    }
}

impl ElementView {
    /// The text of the delimiter in the header row: the opening delimiter of
    /// an expanded container, the collapsed one of a collapsed container.
    /// Empty for a leaf.
    pub open spec fn header(self) -> Seq<char> {
        match self {
            ElementView::Container { expanded, delimiters, .. } => delimiters.header(expanded),
            _ => Seq::empty(),
        }
    }

    /// The row that closes the element: the closing delimiter of an expanded
    /// container, half an icon's width from the left. Nothing closes a leaf
    /// or a collapsed container.
    pub open spec fn closing(self) -> Option<ClosingView> {
        match self {
            ElementView::Container { expanded, delimiters, .. } => if expanded {
                Some(ClosingView { indent: Indent::HalfIcon, text: delimiters.closing })
            } else {
                None
            },
            _ => None,
        }
    }
}

impl Element {
    /// The text of the delimiter in the header row; empty for a leaf.
    pub fn header_text(&self) -> (text: &'static str)
        ensures
            text@ == self@.header(),
    {
        match self {
            Element::Container { expanded, delimiters, .. } => delimiters.header(*expanded),
            _ => {
                proof {
                    reveal_strlit("");
                }
                let text: &'static str = "";
                assert(text@ =~= Seq::<char>::empty());
                text
            },
        }
    }

    /// The row that closes the element, if one does.
    pub fn closing(&self) -> (row: Option<Closing>)
        ensures
            match row {
                Some(r) => self@.closing() == Some(r@),
                None => self@.closing() == None::<ClosingView>,
            },
    {
        match self {
            Element::Container { expanded, delimiters, .. } => if *expanded {
                Some(Closing { indent: Indent::HalfIcon, text: delimiters.closing })
            } else {
                None
            },
            _ => None,
        }
    }
}

} // verus!
