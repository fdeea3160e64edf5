//! Paragraphs.

use crate::content::{
    Content, Elem, Span, StyledElem, Styles,
};
use crate::frame::Frame;
use crate::geom::{Abs, Smart};
use std::sync::Arc;
use vstd::prelude::*;

verus! {

/// Text, spacing and inline-level elements arranged into a paragraph.
///
/// The paragraph arrives with its lines already broken: what remains is to
/// place them one below the other.
#[derive(PartialEq, Eq, Debug, Hash)]
pub struct ParElem {
    /// The spacing between lines: from the bottom edge of one line to the
    /// top edge of the next.
    pub leading: Abs,
    /// The spacing between paragraphs.
    pub spacing: Abs,
    /// Whether text is justified in its line.
    pub justify: bool,
    /// How line breaks were determined.
    pub linebreaks: Smart<Linebreaks>,
    /// The indent of the first line of a paragraph that follows another
    /// paragraph.
    pub first_line_indent: Abs,
    /// The indent of all lines but the first.
    pub hanging_indent: Abs,
    /// Whether an overflowing line may be shrunk.
    pub shrink: bool,
    /// The paragraph's children: its lines, from top to bottom.
    pub children: Vec<Frame>,
}

/// A paragraph break, as content.
pub open spec fn parbreak() -> Content {
    Content { span: Span::detached(), location: None, elem: Arc::new(Elem::Parbreak(ParbreakElem {})) }
}

/// Content with styles of its own, as content.
pub open spec fn styled(child: Content, styles: Styles) -> Content {
    Content { span: Span::detached(), location: None, elem: Arc::new(Elem::Styled(StyledElem { child, styles })) }
}

impl ParElem {
    /// What a call of the paragraph with a body stands for. It makes no
    /// paragraph of its own: it only sees to it that the body, with the
    /// styles that the call sets, is in a paragraph apart from what is
    /// around it. So the content is a sequence of the body, styled, between
    /// two paragraph breaks.
    pub fn construct(body: Content, styles: Styles) -> (r: Content)
        ensures
            r.span == Span::detached(),
            r.location is None,
            *r.elem matches Elem::Sequence(parts) && parts@ == seq![
                parbreak(),
                styled(body, styles),
                parbreak(),
            ],
    {
        let mut parts: Vec<Content> = Vec::new();
        parts.push(Content::new(Elem::Parbreak(ParbreakElem {})));
        parts.push(Content::new(Elem::Styled(StyledElem { child: body, styles })));
        parts.push(Content::new(Elem::Parbreak(ParbreakElem {})));
        assert(parts@ =~= seq![parbreak(), styled(body, styles), parbreak()]);
        Content::new(Elem::Sequence(parts))
    }
}

/// How to determine line breaks in a paragraph.
#[derive(Clone, Copy, PartialEq, Eq, Structural, Debug, Hash)]
pub enum Linebreaks {
    /// Determine the line breaks in a simple first-fit style.
    Simple,
    /// Optimize the line breaks for the whole paragraph.
    Optimized,
}

/// A paragraph break: what follows starts a new paragraph.
#[derive(Clone, Copy, PartialEq, Eq, Structural, Debug, Hash)]
pub struct ParbreakElem {}

} // verus!
