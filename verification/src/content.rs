//! The content that layout arranges: a tree of elements, already realized
//! and styled, with the lines of every paragraph already broken.

use crate::geom::{Abs, Axes, Dir, FixedAlignment, Fr, Ratio, Rel, Sides, Smart};
use crate::par::{ParElem, ParbreakElem};
use std::sync::Arc;
use vstd::prelude::*;

verus! {

/// The identity of an element in the document.
#[derive(Clone, Copy, PartialEq, Eq, Structural, Debug, Hash)]
pub struct Location(pub u64);

/// The place in the source that content comes from.
#[derive(Clone, Copy, PartialEq, Eq, Structural, Debug, Hash)]
pub struct Span(pub u64);

impl Span {
    pub open spec fn detached_spec() -> Span {
        Span(0)
    }

    /// The span of content that comes from nowhere in the source.
    #[verifier::when_used_as_spec(detached_spec)]
    pub fn detached() -> (r: Span)
        ensures
            r == Span::detached_spec(),
    {
        Span(0)
    }
}

/// A piece of content: an element, where it comes from in the source, and
/// where it is located.
///
/// The element is shared, so a copy of the content is cheap, and equal to
/// the content that it was made of.
#[derive(PartialEq, Eq, Debug, Hash)]
pub struct Content {
    pub span: Span,
    pub location: Option<Location>,
    pub elem: Arc<Elem>,
}

/// `Arc::clone`: the new pointer shares the allocation of the old one, so
/// what it points to is the same value.
#[verifier::external_body]
fn share(elem: &Arc<Elem>) -> (r: Arc<Elem>)
    ensures
        r == *elem,
{
    elem.clone()
}

impl Clone for Content {
    fn clone(&self) -> (r: Self)
        ensures
            r == *self,
    {
        Content { span: self.span, location: self.location, elem: share(&self.elem) }
    }
}

impl Content {
    /// Content that holds `elem`, without a place in the source and
    /// without a location.
    pub fn new(elem: Elem) -> (r: Content)
        ensures
            r.span == Span::detached(),
            r.location is None,
            *r.elem == elem,
    {
        Content { span: Span::detached(), location: None, elem: Arc::new(elem) }
    }

    /// The same content, coming from `span`.
    pub fn spanned(self, span: Span) -> (r: Content)
        ensures
            r.span == span,
            r.location == self.location,
            r.elem == self.elem,
    {
        Content { span, location: self.location, elem: self.elem }
    }

    /// The same content, located at `location`.
    pub fn located(self, location: Location) -> (r: Content)
        ensures
            r.span == self.span,
            r.location == Some(location),
            r.elem == self.elem,
    {
        Content { span: self.span, location: Some(location), elem: self.elem }
    }
}

/// The kinds of element.
#[derive(PartialEq, Eq, Debug, Hash)]
pub enum Elem {
    /// Several pieces of content, one after the other.
    Sequence(Vec<Content>),
    /// Content with a style chain of its own.
    Styled(StyledElem),
    /// A realized flow.
    Flow(FlowElem),
    /// A run of pages with the same properties.
    Page(PageElem),
    /// A paragraph.
    Par(ParElem),
    /// A paragraph break.
    Parbreak(ParbreakElem),
    /// A block-level container.
    Block(BlockElem),
    /// Content that is placed relative to its region.
    Place(PlaceElem),
    /// Vertical spacing.
    V(VElem),
    /// A column break.
    Colbreak(ColbreakElem),
    /// A request to place all pending floats.
    Flush(FlushElem),
    /// Metadata that marks a place.
    Tag(TagElem),
    /// A footnote.
    Footnote(FootnoteElem),
    /// An update of a counter.
    CounterUpdate(CounterUpdateElem),
    /// The display of a counter.
    CounterDisplay(CounterDisplayElem),
}

/// What a document says of itself.
#[derive(Clone, Copy, PartialEq, Eq, Structural, Debug, Hash)]
pub struct DocumentInfo {
    /// The title of the document, a text by its identity.
    pub title: Option<u64>,
    /// The author of the document, a text by its identity.
    pub author: Option<u64>,
    /// The keywords of the document, a text by its identity.
    pub keywords: Option<u64>,
}

/// The style properties that layout reads, resolved.
#[derive(PartialEq, Eq, Debug, Hash)]
pub struct Styles {
    /// The direction of text.
    pub dir: Dir,
    /// How content is aligned in its region.
    pub align: Axes<FixedAlignment>,
    /// What it costs to leave a line of a paragraph alone in a region.
    pub costs: Costs,
    /// What separates the footnotes from the body.
    pub footnote_separator: Content,
    /// The space between the body and the separator.
    pub footnote_clearance: Abs,
    /// The space before each footnote entry.
    pub footnote_gap: Abs,
    /// The space between two columns.
    pub column_gutter: Rel,
    /// What the document says of itself.
    pub document: DocumentInfo,
}

impl Clone for Styles {
    fn clone(&self) -> (r: Self)
        ensures
            r == *self,
    {
        Styles {
            dir: self.dir,
            align: self.align,
            costs: self.costs,
            footnote_separator: self.footnote_separator.clone(),
            footnote_clearance: self.footnote_clearance,
            footnote_gap: self.footnote_gap,
            column_gutter: self.column_gutter,
            document: self.document,
        }
    }
}

/// The costs of a lonely line at the start or the end of a region.
#[derive(Clone, Copy, PartialEq, Eq, Structural, Debug, Hash)]
pub struct Costs {
    /// The cost of leaving the first line of a paragraph behind.
    pub orphan: Ratio,
    /// The cost of carrying only the last line of a paragraph over.
    pub widow: Ratio,
}

/// Content together with the styles that apply to it.
#[derive(PartialEq, Eq, Debug, Hash)]
pub struct StyledElem {
    pub child: Content,
    pub styles: Styles,
}

impl Clone for StyledElem {
    fn clone(&self) -> (r: Self)
        ensures
            r == *self,
    {
        StyledElem { child: self.child.clone(), styles: self.styles.clone() }
    }
}

/// A collection of block-level elements, each with its styles. This is to
/// blocks what a paragraph is to inline-level elements.
///
/// Both the top-level content of a page and the content of any container
/// are laid out as a flow.
#[derive(PartialEq, Eq, Debug, Hash)]
pub struct FlowElem {
    /// The children that will be arranged into a flow.
    pub children: Vec<StyledElem>,
}

/// A block-level container.
#[derive(PartialEq, Eq, Debug, Hash)]
pub struct BlockElem {
    /// What the block holds.
    pub body: Content,
    /// Whether the block must stay with what follows it.
    pub sticky: bool,
    /// Whether the block may host the footnotes of its content.
    pub rootable: bool,
}

/// How content is aligned, on the axes for which that was said.
#[derive(Clone, Copy, PartialEq, Eq, Structural, Debug, Hash)]
pub struct Alignment {
    pub x: Option<FixedAlignment>,
    pub y: Option<FixedAlignment>,
}

/// Content that is placed relative to its region.
#[derive(PartialEq, Eq, Debug, Hash)]
pub struct PlaceElem {
    /// What is placed.
    pub body: Content,
    /// Whether the content floats, that is, takes up space in the flow.
    pub float: bool,
    /// The space between a float and the content of the flow.
    pub clearance: Abs,
    /// Where in the region the content goes.
    pub alignment: Smart<Alignment>,
    /// The horizontal shift, relative to the width of the region.
    pub dx: Rel,
    /// The vertical shift, relative to the height of the region.
    pub dy: Rel,
}

/// An amount of spacing.
#[derive(Clone, Copy, PartialEq, Eq, Structural, Debug, Hash)]
pub enum Spacing {
    /// A length, relative to the height of the region.
    Rel(Rel),
    /// A share of the space that is left over.
    Fr(Fr),
}

/// Vertical spacing.
#[derive(Clone, Copy, PartialEq, Eq, Structural, Debug, Hash)]
pub struct VElem {
    /// How much spacing.
    pub amount: Spacing,
    /// Spacing of a weakness above zero disappears at the edges of a
    /// region.
    pub weakness: usize,
}

/// A column break.
#[derive(Clone, Copy, PartialEq, Eq, Structural, Debug, Hash)]
pub struct ColbreakElem {
    pub weak: bool,
}

/// A request to place all pending floats before more content.
#[derive(Clone, Copy, PartialEq, Eq, Structural, Debug, Hash)]
pub struct FlushElem {}

/// Metadata in a flow.
#[derive(PartialEq, Eq, Debug, Hash)]
pub struct TagElem {
    pub tag: Tag,
}

/// A mark in a frame that says which element was laid out there.
#[derive(PartialEq, Eq, Debug, Hash)]
pub struct Tag {
    pub elem: Content,
}

impl Clone for Tag {
    fn clone(&self) -> (r: Self)
        ensures
            r == *self,
    {
        Tag { elem: self.elem.clone() }
    }
}

/// What a footnote says.
#[derive(PartialEq, Eq, Debug, Hash)]
pub enum FootnoteBody {
    /// The text of the footnote.
    Content(Content),
    /// A reference to another footnote, by its label.
    Reference(u64),
}

/// A footnote.
#[derive(PartialEq, Eq, Debug, Hash)]
pub struct FootnoteElem {
    pub body: FootnoteBody,
}

impl FootnoteElem {
    pub open spec fn is_ref_spec(&self) -> bool {
        self.body is Reference
    }

    /// Whether the footnote only refers to another one, and so has no
    /// entry of its own.
    #[verifier::when_used_as_spec(is_ref_spec)]
    pub fn is_ref(&self) -> (r: bool)
        ensures
            r == self.is_ref_spec(),
    {
        match self.body {
            FootnoteBody::Reference(_) => true,
            FootnoteBody::Content(_) => false,
        }
    }
}

/// Which counter an element speaks of.
#[derive(Clone, Copy, PartialEq, Eq, Structural, Debug, Hash)]
pub enum CounterKey {
    /// The page counter.
    Page,
    /// Some other counter.
    Other(u64),
}

/// What happens to a counter.
#[derive(Clone, Copy, PartialEq, Eq, Structural, Debug, Hash)]
pub enum CounterUpdate {
    /// The counter takes this value.
    Reset(usize),
    /// The counter goes up by one.
    Step,
}

/// An update of a counter.
#[derive(Clone, Copy, PartialEq, Eq, Structural, Debug, Hash)]
pub struct CounterUpdateElem {
    pub key: CounterKey,
    pub update: CounterUpdate,
}

/// How pages are numbered.
#[derive(Clone, Copy, PartialEq, Eq, Structural, Debug, Hash)]
pub enum Numbering {
    /// A pattern with this many counting symbols.
    Pattern(usize),
    /// A function, by its identity.
    Func(u64),
}

/// The display of a counter.
#[derive(Clone, Copy, PartialEq, Eq, Structural, Debug, Hash)]
pub struct CounterDisplayElem {
    pub key: CounterKey,
    pub numbering: Numbering,
    /// Whether both the value and the final value are displayed.
    pub both: bool,
    /// Where the number goes horizontally, if that was said.
    pub align: Option<FixedAlignment>,
}

/// Whether a number is even or odd.
#[derive(Clone, Copy, PartialEq, Eq, Structural, Debug, Hash)]
pub enum Parity {
    Even,
    Odd,
}

impl Parity {
    pub open spec fn matches_spec(self, number: usize) -> bool {
        match self {
            Parity::Even => number % 2 == 0,
            Parity::Odd => number % 2 == 1,
        }
    }

    /// Whether `number` has this parity.
    #[verifier::when_used_as_spec(matches_spec)]
    pub fn matches(self, number: usize) -> (r: bool)
        ensures
            r == self.matches_spec(number),
    {
        match self {
            Parity::Even => number % 2 == 0,
            Parity::Odd => number % 2 == 1,
        }
    }
}

/// The side on which the pages are bound.
#[derive(Clone, Copy, PartialEq, Eq, Structural, Debug, Hash)]
pub enum Binding {
    Left,
    Right,
}

impl Binding {
    pub open spec fn swap_spec(self, number: usize) -> bool {
        match self {
            Binding::Left => number % 2 == 0,
            Binding::Right => number % 2 == 1,
        }
    }

    /// Whether the left and right margins change places on the page with
    /// this number: on even pages when bound on the left, on odd pages
    /// when bound on the right.
    #[verifier::when_used_as_spec(swap_spec)]
    pub fn swap(self, number: usize) -> (r: bool)
        ensures
            r == self.swap_spec(number),
    {
        match self {
            Binding::Left => number % 2 == 0,
            Binding::Right => number % 2 == 1,
        }
    }
}

/// The margins of a page, as far as they were given.
#[derive(Clone, Copy, PartialEq, Eq, Structural, Debug, Hash)]
pub struct Margin {
    /// The margin of each side. A side that was not given, or is
    /// automatic, gets the default margin.
    pub sides: Sides<Option<Smart<Rel>>>,
    /// Whether the document is printed on both sides of the paper.
    pub two_sided: Option<bool>,
}

/// What a page is filled with.
#[derive(Clone, Copy, PartialEq, Eq, Structural, Debug, Hash)]
pub struct Paint(pub u32);

/// A run of pages with the same properties.
#[derive(PartialEq, Eq, Debug, Hash)]
pub struct PageElem {
    /// The width of the page; automatic means that it fits its content.
    pub width: Smart<Abs>,
    /// The height of the page; automatic means that it fits its content.
    pub height: Smart<Abs>,
    /// Whether width and height change places.
    pub flipped: bool,
    /// The margins.
    pub margin: Margin,
    /// On which side the pages are bound; automatic goes by the direction
    /// of text.
    pub binding: Smart<Binding>,
    /// Into how many columns the body is set.
    pub columns: usize,
    /// The background colour.
    pub fill: Option<Paint>,
    /// How the pages are numbered.
    pub numbering: Option<Numbering>,
    /// Where the page number goes.
    pub number_align: Alignment,
    /// The header; automatic makes room for the page number.
    pub header: Smart<Option<Content>>,
    /// How far the header is from the body, relative to the top margin.
    pub header_ascent: Rel,
    /// The footer; automatic makes room for the page number.
    pub footer: Smart<Option<Content>>,
    /// How far the footer is from the body, relative to the bottom margin.
    pub footer_descent: Rel,
    /// Content behind the body.
    pub background: Option<Content>,
    /// Content in front of the body.
    pub foreground: Option<Content>,
    /// The contents of the pages.
    pub body: Content,
    /// Whether the run starts on a page of a given parity.
    pub clear_to: Option<Parity>,
}

} // verus!
