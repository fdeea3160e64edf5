//! Pages: a run of pages is laid out as a flow, and each frame of the flow
//! becomes a page with margins, header, footer, background and foreground.

use crate::columns::{layout_fragment_with_columns, with_columns};
use crate::content::{
    Binding, Content, CounterDisplayElem, CounterKey, CounterUpdate, Elem, Numbering, PageElem, Paint, Parity, Span, Styles, Tag, TagElem,
};
use crate::engine::{Engine, LayoutError};
use crate::flow::fragment::{layout_fragment, layout_frame};
use crate::frame::{frame_views, lemma_frame_items, Frame, FrameItem, FrameItemView, FrameView};
use crate::geom::{Abs, Axes, Dir, FixedAlignment, Point, Rel, Sides, Size, Smart};
use crate::model;
use crate::regions::{Region, Regions, RegionsView};
use std::sync::Arc;
use vstd::prelude::*;

verus! {

/// The width of a sheet of A4 paper.
pub const A4_WIDTH: i64 = 595_276;

/// Counts the pages of a document.
#[derive(Clone, Copy, PartialEq, Eq, Structural, Debug)]
pub struct PageCounter {
    /// How many pages there are, with the current one.
    pub physical: usize,
    /// The number of the current page, which the document may change.
    pub logical: usize,
}

/// A number and one more, as far as numbers go.
pub open spec fn succ(n: usize) -> usize {
    if n < usize::MAX {
        (n + 1) as usize
    } else {
        n
    }
}

/// The number of the page after a counter update.
pub open spec fn updated(logical: usize, update: CounterUpdate) -> usize {
    match update {
        CounterUpdate::Reset(number) => number,
        CounterUpdate::Step => succ(logical),
    }
}

/// The number of the page after the updates of the page counter that are
/// tagged in the frame and in the frames inside it, in the order of the
/// items.
pub open spec fn visited(logical: usize, frame: FrameView) -> usize
    decreases frame, 0nat,
{
    visited_items(logical, frame.items, frame.items.len())
}

/// The number of the page after the updates of the page counter that are
/// tagged in the first `n` items.
pub open spec fn visited_items(logical: usize, items: Seq<(Point, FrameItemView)>, n: nat) -> usize
    decreases items, n,
{
    if n == 0 || n > items.len() {
        logical
    } else {
        let so_far = visited_items(logical, items, (n - 1) as nat);
        match items[n - 1].1 {
            FrameItemView::Group(group) => visited(so_far, group),
            FrameItemView::Tag(tag) => match *tag.elem.elem {
                Elem::CounterUpdate(elem) => if elem.key is Page {
                    updated(so_far, elem.update)
                } else {
                    so_far
                },
                _ => so_far,
            },
            _ => so_far,
        }
    }
}

impl PageCounter {
    pub open spec fn new_spec() -> PageCounter {
        PageCounter { physical: 1, logical: 1 }
    }

    /// A counter at the first page.
    #[verifier::when_used_as_spec(new_spec)]
    pub fn new() -> (r: PageCounter)
        ensures
            r == PageCounter::new_spec(),
    {
        PageCounter { physical: 1, logical: 1 }
    }

    /// The counter after the updates in the frame of the current page.
    pub open spec fn visit_spec(self, frame: FrameView) -> PageCounter {
        PageCounter { physical: self.physical, logical: visited(self.logical, frame) }
    }

    /// Applies the updates of the page counter that are tagged in the
    /// frame.
    pub fn visit(&mut self, frame: &Frame)
        ensures
            *final(self) == old(self).visit_spec(frame@),
        decreases frame,
    {
        proof {
            lemma_frame_items(*frame);
        }
        let mut i: usize = 0;
        while i < frame.items.len()
            invariant
                i <= frame.items.len(),
                frame@.items.len() == frame.items@.len(),
                forall|j: int|
                    0 <= j < frame.items@.len() ==> #[trigger] frame@.items[j] == (
                        frame.items@[j].0,
                        frame.items@[j].1@,
                    ),
                self.physical == old(self).physical,
                self.logical == visited_items(old(self).logical, frame@.items, i as nat),
            decreases frame.items.len() - i,
        {
            assert(frame@.items[i as int].1 == frame.items@[i as int].1@);
            match &frame.items[i].1 {
                FrameItem::Group(group) => {
                    self.visit(group);
                },
                FrameItem::Tag(tag) => {
                    match &*tag.elem.elem {
                        Elem::CounterUpdate(elem) => {
                            match elem.key {
                                CounterKey::Page => {
                                    self.logical = match elem.update {
                                        CounterUpdate::Reset(number) => number,
                                        CounterUpdate::Step => if self.logical < usize::MAX {
                                            self.logical + 1
                                        } else {
                                            self.logical
                                        },
                                    };
                                },
                                _ => {},
                            }
                        },
                        _ => {},
                    }
                },
                _ => {},
            }
            i += 1;
        }
    }

    pub open spec fn step_spec(self) -> PageCounter {
        PageCounter { physical: succ(self.physical), logical: succ(self.logical) }
    }

    /// Goes on to the next page.
    pub fn step(&mut self)
        ensures
            *final(self) == old(self).step_spec(),
    {
        if self.physical < usize::MAX {
            self.physical = self.physical + 1;
        }
        if self.logical < usize::MAX {
            self.logical = self.logical + 1;
        }
    }
}

/// A finished page.
#[derive(PartialEq, Eq, Debug, Hash)]
pub struct Page {
    /// The frame that defines the page.
    pub frame: Frame,
    /// What the page is filled with.
    pub fill: Option<Paint>,
    /// How the page is numbered.
    pub numbering: Option<Numbering>,
    /// The number of the page.
    pub number: usize,
}

/// The mathematical value of a [`Page`].
pub ghost struct PageView {
    pub frame: FrameView,
    pub fill: Option<Paint>,
    pub numbering: Option<Numbering>,
    pub number: usize,
}

impl View for Page {
    type V = PageView;

    open spec fn view(&self) -> PageView {
        PageView {
            frame: self.frame@,
            fill: self.fill,
            numbering: self.numbering,
            number: self.number,
        }
    }
}

/// The values of a sequence of pages.
pub open spec fn page_views(pages: Seq<Page>) -> Seq<PageView> {
    pages.map_values(|page: Page| page@)
}

/// A prepared layout of a page run that can be finalized with access to
/// the page counter.
pub struct PageRunLayout<'a> {
    /// The run of pages.
    pub page: &'a PageElem,
    /// The styles of the run.
    pub styles: &'a Styles,
    /// The parity that the number of pages is padded to.
    pub extend_to: Option<Parity>,
    /// The size of the pages without their margins.
    pub area: Size,
    /// The margins.
    pub margin: Sides<Abs>,
    /// Whether the margins change sides from page to page.
    pub two_sided: bool,
    /// The frames of the pages, without margins.
    pub frames: Vec<Frame>,
}

/// The mathematical value of a [`PageRunLayout`].
pub ghost struct PageRunView {
    pub page: PageElem,
    pub styles: Styles,
    pub extend_to: Option<Parity>,
    pub area: Size,
    pub margin: Sides<Abs>,
    pub two_sided: bool,
    pub frames: Seq<FrameView>,
}

impl<'a> View for PageRunLayout<'a> {
    type V = PageRunView;

    open spec fn view(&self) -> PageRunView {
        PageRunView {
            page: *self.page,
            styles: *self.styles,
            extend_to: self.extend_to,
            area: self.area,
            margin: self.margin,
            two_sided: self.two_sided,
            frames: frame_views(self.frames@),
        }
    }
}

/// The size of the pages of a run: an automatic extent is infinite, so
/// that the page fits its content; a flipped page has width and height
/// exchanged.
pub open spec fn page_size(page: PageElem) -> Size {
    let width = match page.width {
        Smart::Custom(width) => width,
        Smart::Auto => Abs::inf(),
    };
    let height = match page.height {
        Smart::Custom(height) => height,
        Smart::Auto => Abs::inf(),
    };
    if page.flipped {
        Size::new(height, width)
    } else {
        Size::new(width, height)
    }
}

/// The margin of a side that was not given: 2.5/21 of the shorter side of
/// the page, or of the width of A4 paper where no side is finite.
pub open spec fn default_margin(page: PageElem) -> Abs {
    let size = page_size(page);
    let min = size.x.min(size.y);
    let min = if min.is_finite() {
        min
    } else {
        Abs::new(A4_WIDTH)
    };
    min.fraction(5, 42)
}

/// The margin of one side, before it is taken relative to the page.
pub open spec fn side_margin(side: Option<Smart<Rel>>, default: Abs) -> Rel {
    match side {
        Some(Smart::Custom(margin)) => margin,
        _ => Rel::absolute(default),
    }
}

/// The margins of the pages of a run.
pub open spec fn page_margin(page: PageElem) -> Sides<Abs> {
    let default = default_margin(page);
    let sides = page.margin.sides;
    Sides {
        left: side_margin(sides.left, default),
        top: side_margin(sides.top, default),
        right: side_margin(sides.right, default),
        bottom: side_margin(sides.bottom, default),
    }.relative_to(page_size(page))
}

/// The regions that the body of a page run is laid out into: the page
/// without its margins, again and again; the flow fills a page along the
/// axes on which it is finite, and hosts the footnotes.
pub open spec fn page_regions(area: Size) -> RegionsView {
    RegionsView { root: true, ..RegionsView::repeat(area, area.finite()) }
}

/// What the layout of a page run yields: the frames of its body, laid out
/// into the pages without their margins, in columns where the run has more
/// than one.
pub open spec fn page_run(
    engine: Engine,
    page: PageElem,
    styles: Styles,
    extend_to: Option<Parity>,
) -> Result<PageRunView, LayoutError> {
    let margin = page_margin(page);
    let area = page_size(page).minus(margin.sum_by_axis());
    let frames = if page.columns > 1 {
        with_columns(
            engine,
            page.body,
            styles,
            page_regions(area),
            page.columns,
            styles.column_gutter,
        )
    } else {
        model::layout_fragment(engine, page.body, styles, page_regions(area))
    };
    match frames {
        Err(e) => Err(e),
        Ok(frames) => Ok(
            PageRunView {
                page,
                styles,
                extend_to,
                area,
                margin,
                two_sided: page.margin.two_sided == Some(true),
                frames,
            },
        ),
    }
}

/// Lays out a run of pages: one `PageElem` stands for all pages with equal
/// properties, not for one page of the output. The frames that come out,
/// one for each page, have no margins yet.
pub fn layout_page_run<'a>(
    engine: &Engine,
    page: &'a PageElem,
    styles: &'a Styles,
    extend_to: Option<Parity>,
) -> (r: Result<PageRunLayout<'a>, LayoutError>)
    ensures
        match page_run(*engine, *page, *styles, extend_to) {
            Ok(run) => r is Ok && r->Ok_0@ == run,
            Err(e) => r is Err && r->Err_0 == e,
        },
{
    // When one of the lengths is infinite the page fits its content along
    // that axis.
    let width = match page.width {
        Smart::Custom(width) => width,
        Smart::Auto => Abs::inf(),
    };
    let height = match page.height {
        Smart::Custom(height) => height,
        Smart::Auto => Abs::inf(),
    };
    let size = if page.flipped {
        Size::new(height, width)
    } else {
        Size::new(width, height)
    };
    let mut min = width.min(height);
    if !min.is_finite() {
        min = Abs::new(A4_WIDTH);
    }
    // Determine the margins.

    let default = min.fraction(5, 42);
    assert(default == default_margin(*page));
    let sides = page.margin.sides;
    let two_sided = match page.margin.two_sided {
        Some(two_sided) => two_sided,
        None => false,
    };
    let margin = Sides {
        left: side_or(sides.left, default),
        top: side_or(sides.top, default),
        right: side_or(sides.right, default),
        bottom: side_or(sides.bottom, default),
    }.relative_to(size);

    // Realize columns.
    let area = size.minus(margin.sum_by_axis());
    let mut regions = Regions::repeat(area, area.finite());
    regions.root = true;
    assert(regions@ == page_regions(area));

    // Layout the child.
    let fragment = if page.columns > 1 {
        layout_fragment_with_columns(
            engine,
            &page.body,
            styles,
            regions,
            page.columns,
            styles.column_gutter,
        )
    } else {
        layout_fragment(engine, &page.body, styles, regions)
    };
    match fragment {
        Err(e) => Err(e),
        Ok(frames) => Ok(
            PageRunLayout { page, styles, extend_to, area, margin, two_sided, frames },
        ),
    }
}

/// The margin of one side, before it is taken relative to the page.
fn side_or(side: Option<Smart<Rel>>, default: Abs) -> (r: Rel)
    ensures
        r == side_margin(side, default),
{
    match side {
        Some(Smart::Custom(margin)) => margin,
        _ => Rel::absolute(default),
    }
}

/// The sum of two numbers, as far as numbers go.
pub open spec fn sum(a: usize, b: usize) -> usize {
    if a + b <= usize::MAX {
        (a + b) as usize
    } else {
        usize::MAX
    }
}

/// The size of a blank page: that of the page without its margins, and
/// nothing along an axis on which the page fits its content.
pub open spec fn blank_size(area: Size) -> Size {
    area.finite().select(area, Size::zero())
}

/// Whether a blank page follows the pages of the run: the run must end on
/// a page of a given parity, and the number of pages with those of the run
/// has the wrong one.
pub open spec fn needs_blank(run: PageRunView, physical: usize) -> bool {
    run.extend_to matches Some(parity) && !parity.matches(
        sum(physical, run.frames.len() as usize),
    )
}

/// The frames of the pages of a run, with the blank page where one is
/// needed.
pub open spec fn padded(run: PageRunView, physical: usize) -> Seq<FrameView> {
    if needs_blank(run, physical) {
        run.frames.push(FrameView::hard(blank_size(run.area)))
    } else {
        run.frames
    }
}

/// The side on which the pages of a run are bound: as the page says, and
/// else on the left where text runs from left to right, and on the right
/// otherwise.
pub open spec fn binding_of(page: PageElem, styles: Styles) -> Binding {
    match page.binding {
        Smart::Custom(binding) => binding,
        Smart::Auto => if styles.dir == Dir::LTR {
            Binding::Left
        } else {
            Binding::Right
        },
    }
}

/// The content that shows the page number: a tag that holds the display
/// of the page counter, for both the number and the total where the
/// numbering has room for two, and aligned as the page says.
pub open spec fn numbering_marginal(page: PageElem) -> Option<Content> {
    match page.numbering {
        None => None,
        Some(numbering) => Some(
            Content {
                span: Span::detached(),
                location: None,
                elem: Arc::new(
                    Elem::Tag(
                        TagElem {
                            tag: Tag {
                                elem: Content {
                                    span: Span::detached(),
                                    location: None,
                                    elem: Arc::new(
                                        Elem::CounterDisplay(
                                            CounterDisplayElem {
                                                key: CounterKey::Page,
                                                numbering,
                                                both: match numbering {
                                                    Numbering::Pattern(pieces) => pieces >= 2,
                                                    Numbering::Func(_) => true,
                                                },
                                                align: page.number_align.x,
                                            },
                                        ),
                                    ),
                                },
                            },
                        },
                    ),
                ),
            },
        ),
    }
}

/// The header of the pages of a run: the header that the page gives; where
/// it gives none, the page number, if that is aligned at the top.
pub open spec fn header_of(page: PageElem) -> Option<Content> {
    match page.header {
        Smart::Custom(header) => header,
        Smart::Auto => if page.number_align.y == Some(FixedAlignment::Start) {
            numbering_marginal(page)
        } else {
            None
        },
    }
}

/// The footer of the pages of a run: the footer that the page gives; where
/// it gives none, the page number, unless that is aligned at the top.
pub open spec fn footer_of(page: PageElem) -> Option<Content> {
    match page.footer {
        Smart::Custom(footer) => footer,
        Smart::Auto => if page.number_align.y == Some(FixedAlignment::Start) {
            None
        } else {
            numbering_marginal(page)
        },
    }
}

/// One of the four things that lie around or over the body of a page.
#[derive(Clone, Copy, PartialEq, Eq, Structural, Debug)]
pub enum Marginal {
    Header,
    Footer,
    Background,
    Foreground,
}

/// Where a marginal goes on a page, and how large and how aligned it is.
#[derive(Clone, Copy, PartialEq, Eq, Structural, Debug)]
pub struct Slot {
    pub pos: Point,
    pub area: Size,
    pub align: Axes<FixedAlignment>,
}

/// The geometry of a page: its margins, the width of its body, and its
/// size with the margins.
#[derive(Clone, Copy, PartialEq, Eq, Structural, Debug)]
pub struct Sheet {
    pub margin: Sides<Abs>,
    pub body_width: Abs,
    pub size: Size,
}

impl Sheet {
    pub open spec fn slot_spec(self, which: Marginal, page: &PageElem, styles: &Styles) -> Slot {
        match which {
            Marginal::Header => {
                let ascent = page.header_ascent.relative_to(self.margin.top);
                Slot {
                    pos: Point::with_x(self.margin.left),
                    area: Size::new(self.body_width, self.margin.top.minus(ascent)),
                    align: Axes { x: styles.align.x, y: FixedAlignment::End },
                }
            },
            Marginal::Footer => {
                let descent = page.footer_descent.relative_to(self.margin.bottom);
                Slot {
                    pos: Point::new(
                        self.margin.left,
                        self.size.y.minus(self.margin.bottom).plus(descent),
                    ),
                    area: Size::new(self.body_width, self.margin.bottom.minus(descent)),
                    align: Axes { x: styles.align.x, y: FixedAlignment::Start },
                }
            },
            _ => Slot {
                pos: Point::zero(),
                area: self.size,
                align: Axes { x: FixedAlignment::Center, y: FixedAlignment::Center },
            },
        }
    }

    /// The slot of a marginal: the header lies in the top margin, above
    /// its ascent, and is aligned at the bottom; the footer lies in the
    /// bottom margin, below its descent, and is aligned at the top;
    /// background and foreground cover the page and are centered.
    #[verifier::when_used_as_spec(slot_spec)]
    pub fn slot(self, which: Marginal, page: &PageElem, styles: &Styles) -> (r: Slot)
        ensures
            r == self.slot_spec(which, page, styles),
    {
        match which {
            Marginal::Header => {
                let ascent = page.header_ascent.relative_to(self.margin.top);
                Slot {
                    pos: Point::with_x(self.margin.left),
                    area: Size::new(self.body_width, self.margin.top.minus(ascent)),
                    align: Axes { x: styles.align.x, y: FixedAlignment::End },
                }
            },
            Marginal::Footer => {
                let descent = page.footer_descent.relative_to(self.margin.bottom);
                Slot {
                    pos: Point::new(
                        self.margin.left,
                        self.size.y.minus(self.margin.bottom).plus(descent),
                    ),
                    area: Size::new(self.body_width, self.margin.bottom.minus(descent)),
                    align: Axes { x: styles.align.x, y: FixedAlignment::Start },
                }
            },
            _ => Slot {
                pos: Point::zero(),
                area: self.size,
                align: Axes { x: FixedAlignment::Center, y: FixedAlignment::Center },
            },
        }
    }
}

/// The styles with another alignment.
pub open spec fn aligned(styles: Styles, align: Axes<FixedAlignment>) -> Styles {
    Styles { align, ..styles }
}

/// The frame of a page with a marginal laid over it: the marginal is laid
/// out into its slot, which it fills; header and background go below what
/// the frame holds, footer and foreground on top of it.
pub open spec fn overlaid(
    engine: Engine,
    frame: FrameView,
    which: Marginal,
    content: Option<Content>,
    sheet: Sheet,
    page: PageElem,
    styles: Styles,
) -> Result<FrameView, LayoutError> {
    match content {
        None => Ok(frame),
        Some(content) => {
            let slot = sheet.slot(which, &page, &styles);
            match model::layout_frame(
                engine,
                content,
                aligned(styles, slot.align),
                Region::new(slot.area, Axes { x: true, y: true }),
            ) {
                Err(e) => Err(e),
                Ok(sub) => if which == Marginal::Header || which == Marginal::Background {
                    Ok(frame.prepend_frame(slot.pos, sub))
                } else {
                    Ok(frame.push_frame(slot.pos, sub))
                },
            }
        },
    }
}

/// The margins of the page with the given number: with left and right
/// exchanged where the run is two-sided and the binding says so.
pub open spec fn margin_on(run: PageRunView, physical: usize) -> Sides<Abs> {
    if run.two_sided && binding_of(run.page, run.styles).swap(physical) {
        run.margin.mirrored()
    } else {
        run.margin
    }
}

/// The frame of a finished page: the frame of the body grows by the
/// margins and its content moves to the inside of the left and top margin;
/// then header, footer, background and foreground are laid over it, in
/// this order.
pub open spec fn page_frame(engine: Engine, run: PageRunView, frame: FrameView, physical: usize) -> Result<
    FrameView,
    LayoutError,
> {
    let margin = margin_on(run, physical);
    let grown = frame.with_size(frame.size.plus(margin.sum_by_axis())).translate(
        Point::new(margin.left, margin.top),
    );
    let sheet = Sheet { margin, body_width: frame.size.x, size: grown.size };
    match overlaid(
        engine,
        grown,
        Marginal::Header,
        header_of(run.page),
        sheet,
        run.page,
        run.styles,
    ) {
        Err(e) => Err(e),
        Ok(headed) => match overlaid(
            engine,
            headed,
            Marginal::Footer,
            footer_of(run.page),
            sheet,
            run.page,
            run.styles,
        ) {
            Err(e) => Err(e),
            Ok(footed) => match overlaid(
                engine,
                footed,
                Marginal::Background,
                run.page.background,
                sheet,
                run.page,
                run.styles,
            ) {
                Err(e) => Err(e),
                Ok(backed) => overlaid(
                    engine,
                    backed,
                    Marginal::Foreground,
                    run.page.foreground,
                    sheet,
                    run.page,
                    run.styles,
                ),
            },
        },
    }
}

/// What the finalization of pages yields.
pub ghost struct Finalized {
    /// The pages.
    pub pages: Seq<PageView>,
    /// The counter after the last of them.
    pub counter: PageCounter,
}

/// What the finalization of the pages from the `i`-th on yields: each
/// frame becomes the frame of a page; the page counter takes the updates
/// in it, gives the page its number, and goes on.
pub open spec fn finalized_from(
    engine: Engine,
    run: PageRunView,
    frames: Seq<FrameView>,
    i: nat,
    counter: PageCounter,
) -> Result<Finalized, LayoutError>
    decreases frames.len() - i,
{
    if i >= frames.len() {
        Ok(Finalized { pages: Seq::empty(), counter })
    } else {
        match page_frame(engine, run, frames[i as int], counter.physical) {
            Err(e) => Err(e),
            Ok(frame) => {
                let counter = counter.visit_spec(frame);
                let page = PageView {
                    frame,
                    fill: run.page.fill,
                    numbering: run.page.numbering,
                    number: counter.logical,
                };
                match finalized_from(engine, run, frames, i + 1, counter.step_spec()) {
                    Err(e) => Err(e),
                    Ok(rest) => Ok(
                        Finalized { pages: seq![page] + rest.pages, counter: rest.counter },
                    ),
                }
            },
        }
    }
}

/// What the finalization of a page run yields: its pages, with a blank
/// page at the end where the parity asks for one.
pub open spec fn finalized(engine: Engine, run: PageRunView, counter: PageCounter) -> Result<
    Finalized,
    LayoutError,
> {
    finalized_from(engine, run, padded(run, counter.physical), 0, counter)
}

/// Builds the content that shows the page number.
fn make_numbering_marginal(page: &PageElem) -> (r: Option<Content>)
    ensures
        r == numbering_marginal(*page),
{
    match page.numbering {
        None => None,
        Some(numbering) => {
            let both = match numbering {
                Numbering::Pattern(pieces) => pieces >= 2,
                Numbering::Func(_) => true,
            };
            // We interpret the vertical alignment as selecting header or
            // footer and then ignore it for aligning the actual number.
            let display = Content::new(
                Elem::CounterDisplay(
                    CounterDisplayElem {
                        key: CounterKey::Page,
                        numbering,
                        both,
                        align: page.number_align.x,
                    },
                ),
            );
            Some(Content::new(Elem::Tag(TagElem { tag: Tag { elem: display } })))
        },
    }
}

/// The header of the pages of a run.
fn make_header(page: &PageElem) -> (r: Option<Content>)
    ensures
        r == header_of(*page),
{
    match &page.header {
        Smart::Custom(Some(header)) => Some(header.clone()),
        Smart::Custom(None) => None,
        Smart::Auto => match page.number_align.y {
            Some(FixedAlignment::Start) => make_numbering_marginal(page),
            _ => None,
        },
    }
}

/// The footer of the pages of a run.
fn make_footer(page: &PageElem) -> (r: Option<Content>)
    ensures
        r == footer_of(*page),
{
    match &page.footer {
        Smart::Custom(Some(footer)) => Some(footer.clone()),
        Smart::Custom(None) => None,
        Smart::Auto => match page.number_align.y {
            Some(FixedAlignment::Start) => None,
            _ => make_numbering_marginal(page),
        },
    }
}

/// Lays a marginal over the frame of a page.
fn overlay(
    engine: &Engine,
    frame: &mut Frame,
    which: Marginal,
    content: &Option<Content>,
    sheet: Sheet,
    page: &PageElem,
    styles: &Styles,
) -> (r: Result<(), LayoutError>)
    ensures
        match overlaid(*engine, old(frame)@, which, *content, sheet, *page, *styles) {
            Ok(next) => r is Ok && final(frame)@ == next,
            Err(e) => r == Err::<(), LayoutError>(e),
        },
{
    let content = match content {
        None => {
            return Ok(());
        },
        Some(content) => content,
    };
    let slot = sheet.slot(which, page, styles);
    let mut aligned = styles.clone();
    aligned.align = slot.align;
    let sub = match layout_frame(
        engine,
        content,
        &aligned,
        Region::new(slot.area, Axes { x: true, y: true }),
    ) {
        Err(e) => {
            return Err(e);
        },
        Ok(sub) => sub,
    };
    match which {
        Marginal::Header => frame.prepend_frame(slot.pos, sub),
        Marginal::Background => frame.prepend_frame(slot.pos, sub),
        _ => frame.push_frame(slot.pos, sub),
    }
    Ok(())
}

/// Turns the frame of the body of a page into the frame of the page.
fn finalize_frame(
    engine: &Engine,
    frame: Frame,
    margin: Sides<Abs>,
    page: &PageElem,
    styles: &Styles,
    header: &Option<Content>,
    footer: &Option<Content>,
) -> (r: Result<Frame, LayoutError>)
    ensures
        ({
            let grown = frame@.with_size(frame@.size.plus(margin.sum_by_axis())).translate(
                Point::new(margin.left, margin.top),
            );
            let sheet = Sheet { margin, body_width: frame@.size.x, size: grown.size };
            let laid = match overlaid(
                *engine,
                grown,
                Marginal::Header,
                *header,
                sheet,
                *page,
                *styles,
            ) {
                Err(e) => Err(e),
                Ok(headed) => match overlaid(
                    *engine,
                    headed,
                    Marginal::Footer,
                    *footer,
                    sheet,
                    *page,
                    *styles,
                ) {
                    Err(e) => Err(e),
                    Ok(footed) => match overlaid(
                        *engine,
                        footed,
                        Marginal::Background,
                        page.background,
                        sheet,
                        *page,
                        *styles,
                    ) {
                        Err(e) => Err(e),
                        Ok(backed) => overlaid(
                            *engine,
                            backed,
                            Marginal::Foreground,
                            page.foreground,
                            sheet,
                            *page,
                            *styles,
                        ),
                    },
                },
            };
            match laid {
                Ok(done) => r is Ok && r->Ok_0@ == done,
                Err(e) => r is Err && r->Err_0 == e,
            }
        }),
{
    let mut frame = frame;
    // The padded width of the page's content without margins.
    let pw = frame.width();

    // Realize margins.
    frame.set_size(frame.size().plus(margin.sum_by_axis()));
    frame.translate(Point::new(margin.left, margin.top));

    // The page size with margins.
    let sheet = Sheet { margin, body_width: pw, size: frame.size() };

    // Realize overlays.
    match overlay(engine, &mut frame, Marginal::Header, header, sheet, page, styles) {
        Err(e) => {
            return Err(e);
        },
        Ok(()) => {},
    }
    match overlay(engine, &mut frame, Marginal::Footer, footer, sheet, page, styles) {
        Err(e) => {
            return Err(e);
        },
        Ok(()) => {},
    }
    match overlay(engine, &mut frame, Marginal::Background, &page.background, sheet, page, styles) {
        Err(e) => {
            return Err(e);
        },
        Ok(()) => {},
    }
    match overlay(engine, &mut frame, Marginal::Foreground, &page.foreground, sheet, page, styles) {
        Err(e) => {
            return Err(e);
        },
        Ok(()) => {},
    }
    Ok(frame)
}

/// Finalizes the layout of a page run with access to the page counter.
pub fn finalize_page_run(engine: &Engine, layout: PageRunLayout<'_>, page_counter: &mut PageCounter) -> (r:
    Result<Vec<Page>, LayoutError>)
    ensures
        match finalized(*engine, layout@, *old(page_counter)) {
            Ok(done) => r is Ok && page_views(r->Ok_0@) == done.pages && *final(page_counter)
                == done.counter,
            Err(e) => r is Err && r->Err_0 == e,
        },
{
    let ghost run = layout@;
    let ghost start = *page_counter;
    let page = layout.page;
    let styles = layout.styles;
    let area = layout.area;
    let margin = layout.margin;
    let two_sided = layout.two_sided;
    let extend_to = layout.extend_to;
    let mut frames = layout.frames;

    // Align the child to the pagebreak's parity. Check for the page count
    // after adding the pending frames.
    let count = if frames.len() <= usize::MAX - page_counter.physical {
        page_counter.physical + frames.len()
    } else {
        usize::MAX
    };
    let blank = match extend_to {
        Some(parity) => !parity.matches(count),
        None => false,
    };
    if blank {
        // Insert empty page after the current pages.
        frames.push(Frame::hard(area.finite().select(area, Size::zero())));
    }
    proof {
        assert(frame_views(frames@) =~= padded(run, start.physical));
    }
    let binding = match page.binding {
        Smart::Custom(binding) => binding,
        Smart::Auto => match styles.dir {
            Dir::LTR => Binding::Left,
            _ => Binding::Right,
        },
    };
    let header = make_header(page);
    let footer = make_footer(page);

    // Post-process pages.
    let ghost all = frame_views(frames@);
    let n = frames.len();
    let mut pages: Vec<Page> = Vec::new();
    let mut i: usize = 0;
    assert(forall|j: int| 0 <= j < n ==> frame_views(frames@)[j] == frames@[j]@);
    while i < n
        invariant
            i <= n,
            n == frames@.len(),
            all.len() == n,
            forall|j: int| i <= j < n ==> (#[trigger] frames@[j])@ == all[j],
            run == layout@,
            start == *old(page_counter),
            all == padded(run, start.physical),
            run.page == *page,
            run.styles == *styles,
            run.margin == margin,
            run.two_sided == two_sided,
            binding == binding_of(*page, *styles),
            header == header_of(*page),
            footer == footer_of(*page),
            match finalized_from(*engine, run, all, i as nat, *page_counter) {
                Ok(rest) => finalized_from(*engine, run, all, 0, start) == Ok::<
                    Finalized,
                    LayoutError,
                >(
                    Finalized {
                        pages: page_views(pages@) + rest.pages,
                        counter: rest.counter,
                    },
                ),
                Err(e) => finalized_from(*engine, run, all, 0, start) == Err::<
                    Finalized,
                    LayoutError,
                >(e),
            },
        decreases n - i,
    {
        let ghost counter = *page_counter;
        let mut frame = Frame::soft(Size::zero());
        core::mem::swap(&mut frames[i], &mut frame);
        // If two sided, left becomes inside and right becomes outside.
        // Thus, for left-bound pages, we want to swap on even pages and
        // for right-bound pages, we want to swap on odd pages.
        let margin = if two_sided && binding.swap(page_counter.physical) {
            margin.mirrored()
        } else {
            margin
        };
        assert(margin == margin_on(run, counter.physical));
        let frame = match finalize_frame(engine, frame, margin, page, styles, &header, &footer) {
            Err(e) => {
                return Err(e);
            },
            Ok(frame) => frame,
        };
        page_counter.visit(&frame);
        let ghost view = PageView {
            frame: frame@,
            fill: page.fill,
            numbering: page.numbering,
            number: page_counter.logical,
        };
        let ghost before = page_views(pages@);
        pages.push(
            Page {
                frame,
                fill: page.fill,
                numbering: page.numbering,
                number: page_counter.logical,
            },
        );
        page_counter.step();
        proof {
            assert(page_views(pages@) =~= before.push(view));
            match finalized_from(*engine, run, all, i as nat + 1, *page_counter) {
                Ok(rest) => {
                    assert(page_views(pages@) + rest.pages =~= before + (seq![view] + rest.pages));
                },
                Err(e) => {},
            }
        }
        i += 1;
    }
    proof {
        assert(page_views(pages@) + Seq::<PageView>::empty() =~= page_views(pages@));
    }
    Ok(pages)
}

} // verus!
