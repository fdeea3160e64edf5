//! What flow layout computes, as mathematics.
//!
//! The state of a flow layout is a [`FlowState`]; every step of the layout
//! is a function from state to state. The functions here say what each step
//! yields; the executable layouter is proved to compute exactly that.
//!
//! A step never takes back a frame that is finished, and the frames of one
//! layout are no more than a machine can count. The model recurses on its
//! own results on that ground: [`FlowState::after`] and [`FlowState::past`]
//! hand a result on only where it keeps to this, and leave it open where it
//! does not, which no run of the layouter ever reaches.
//!
//! Every step that takes part in the recursion comes as a pair: the step
//! under its name, which contracts and other steps speak of, and what it
//! stands for under the same name with `_def`. Both are opaque, so that a
//! proof unfolds the steps that it is about and no others.

use crate::content::{
    BlockElem, Content, Elem, FootnoteBody, Location, PlaceElem, Spacing, Span, StyledElem, Styles, Tag, VElem,
};
use crate::engine::{Engine, LayoutError, MAX_LAYOUT_DEPTH};
use crate::frame::{frame_views, FrameItemView, FrameView};
use crate::geom::{Abs, Axes, FixedAlignment, Point, Size, Smart};
use crate::items::{all_out_of_flow, has_frame, placed, trim_weak, FlowItemView};
use crate::par::ParElem;
use crate::regions::{Region, RegionsView};
use vstd::prelude::*;

verus! {

/// The state of a flow layout.
pub ghost struct FlowState {
    /// The engine.
    pub engine: Engine,
    /// The styles of the flow.
    pub styles: Styles,
    /// The place in the source that the flow comes from.
    pub span: Span,
    /// Whether this is the root flow, which hosts the footnotes.
    pub root: bool,
    /// The regions to lay out into.
    pub regions: RegionsView,
    /// Whether the flow expands to fill its regions.
    pub expand: Axes<bool>,
    /// The size that the current region had when it was entered.
    pub initial: Size,
    /// Whether the last block was a paragraph.
    pub last_was_par: bool,
    /// Spacing and laid-out blocks of the current region.
    pub items: Seq<FlowItemView>,
    /// The tags that wait for the next frame.
    pub pending_tags: Seq<Tag>,
    /// The floats that wait for a region with room for them.
    pub pending_floats: Seq<FlowItemView>,
    /// Whether the current region holds footnotes.
    pub has_footnotes: bool,
    /// The frames of the regions that are finished.
    pub finished: Seq<FrameView>,
}

/// What a step of the layout yields.
pub type Step = Result<FlowState, LayoutError>;

/// What handling footnotes yields.
pub ghost struct Footnoted {
    /// The state afterwards.
    pub state: FlowState,
    /// The notes afterwards: those handed in, and those found in their
    /// entries.
    pub notes: Seq<Content>,
    /// Whether the entries fit; where they did not, nothing was placed.
    pub fit: bool,
}

/// What a flow remembers in order to undo the placement of footnotes.
#[derive(Clone, Copy, PartialEq, Eq, Structural, Debug)]
pub struct Snapshot {
    /// How many notes there were.
    pub notes_len: usize,
    /// How many items the region held.
    pub items_len: usize,
    /// What was left of the region.
    pub size: Size,
    /// Whether the region held footnotes.
    pub has_footnotes: bool,
}

/// What finishing a region with migration yields.
pub ghost struct Migrated {
    /// The state afterwards.
    pub state: FlowState,
    /// Whether the region that was entered is the last one.
    pub in_last: bool,
}

/// The lines of a paragraph and what their placement goes by.
pub ghost struct Lines {
    pub frames: Seq<FrameView>,
    pub leading: Abs,
    pub align: Axes<FixedAlignment>,
    pub prevent_orphans: bool,
    pub prevent_widows: bool,
}

/// Whether a note with this location is among the notes.
pub open spec fn has_note(notes: Seq<Content>, location: Option<Location>) -> bool {
    exists|i: int| 0 <= i < notes.len() && (#[trigger] notes[i]).location == location
}

/// The notes, and after them the footnotes that are tagged in the frame
/// and in the frames inside it, in the order of the items, each location
/// once.
pub open spec fn collect_footnotes(notes: Seq<Content>, frame: FrameView) -> Seq<Content>
    decreases frame, 0nat,
{
    collect_in_items(notes, frame.items, frame.items.len())
}

/// The notes, and after them the footnotes that are tagged in the first `n`
/// items.
pub open spec fn collect_in_items(
    notes: Seq<Content>,
    items: Seq<(Point, FrameItemView)>,
    n: nat,
) -> Seq<Content>
    decreases items, n,
{
    if n == 0 || n > items.len() {
        notes
    } else {
        let acc = collect_in_items(notes, items, (n - 1) as nat);
        match items[n - 1].1 {
            FrameItemView::Group(group) => collect_footnotes(acc, group),
            FrameItemView::Tag(tag) => if !has_note(acc, tag.elem.location) && *tag.elem.elem
                is Footnote {
                acc.push(tag.elem)
            } else {
                acc
            },
            _ => acc,
        }
    }
}

/// The content of the entry of a footnote; none for content that is no
/// footnote and for a footnote that only refers to another.
pub open spec fn note_body(note: Content) -> Option<Content> {
    match *note.elem {
        Elem::Footnote(footnote) => match footnote.body {
            FootnoteBody::Content(body) => Some(body),
            FootnoteBody::Reference(_) => None,
        },
        _ => None,
    }
}

/// The notes with the last `nested` of them moved to directly behind the
/// first `k`.
pub open spec fn rotate_notes(notes: Seq<Content>, k: int, nested: int) -> Seq<Content> {
    notes.take(k) + notes.skip(notes.len() - nested) + notes.subrange(k, notes.len() - nested)
}

/// Where the scan for sticky frames ends that has come down to `i` and has
/// seen its last sticky frame at `sticky`: spacing is passed over, a sticky
/// frame moves the start, anything else ends the scan.
pub open spec fn sticky_scan(items: Seq<FlowItemView>, i: nat, sticky: nat) -> nat
    decreases i,
{
    if i == 0 || i > items.len() {
        sticky
    } else {
        match items[i - 1] {
            FlowItemView::Absolute(_, _) => sticky_scan(items, (i - 1) as nat, sticky),
            FlowItemView::Frame { sticky: true, .. } => sticky_scan(
                items,
                (i - 1) as nat,
                (i - 1) as nat,
            ),
            _ => sticky,
        }
    }
}

/// Where the sticky frames at the end of the items start.
pub open spec fn sticky_start(items: Seq<FlowItemView>) -> nat {
    sticky_scan(items, items.len(), items.len())
}

/// The children of the flow that content is laid out as: the children of a
/// sequence, or the content alone; each with the styles that it brings and
/// otherwise with `styles`.
pub open spec fn realized(content: Content, styles: Styles) -> Seq<StyledElem> {
    match *content.elem {
        Elem::Sequence(children) => Seq::new(
            children@.len(),
            |i: int| realized_child(children@[i], styles),
        ),
        _ => seq![realized_child(content, styles)],
    }
}

/// A child of a realized flow: content with styles of its own as it is,
/// other content with `styles`.
pub open spec fn realized_child(content: Content, styles: Styles) -> StyledElem {
    match *content.elem {
        Elem::Styled(styled) => styled,
        _ => StyledElem { child: content, styles },
    }
}

/// The lines of a paragraph as frames: as wide as the base where the
/// paragraph expands and the base is finite; the first line indented where
/// the paragraph follows another, all other lines by the hanging indent.
pub open spec fn lines_of(par: ParElem, consecutive: bool, base: Size, expand: bool) -> Seq<
    FrameView,
> {
    Seq::new(par.children@.len(), |i: int| line_of(par, i, consecutive, base, expand))
}

/// The frame of line `i` of a paragraph.
pub open spec fn line_of(par: ParElem, i: int, consecutive: bool, base: Size, expand: bool) -> FrameView {
    let line = par.children@[i]@;
    let width = if expand && base.x.is_finite() {
        base.x
    } else {
        line.size.x
    };
    let indent = if i == 0 {
        if consecutive {
            par.first_line_indent
        } else {
            Abs::zero()
        }
    } else {
        par.hanging_indent
    };
    line.with_size(Size::new(width, line.size.y)).translate(Point::with_x(indent))
}

/// The height of line `i`, and nothing where there is no such line.
pub open spec fn height_at(lines: Seq<FrameView>, i: int) -> Abs {
    if 0 <= i < lines.len() {
        lines[i].size.y
    } else {
        Abs::zero()
    }
}

impl Lines {
    /// The lines of `par` under `styles`, with what stops orphans and
    /// widows: a cost above zero and a paragraph of two lines or more whose
    /// second, or second to last, line is not empty.
    pub open spec fn new(frames: Seq<FrameView>, par: ParElem, styles: Styles) -> Lines {
        let len = frames.len();
        Lines {
            frames,
            leading: par.leading,
            align: styles.align,
            prevent_orphans: styles.costs.orphan.is_positive() && len >= 2
                && !frames[1].is_empty(),
            prevent_widows: styles.costs.widow.is_positive() && len >= 2 && !frames[len
                - 2].is_empty(),
        }
    }

    pub open spec fn prevent_all(self) -> bool {
        self.frames.len() == 3 && self.prevent_orphans && self.prevent_widows
    }

    /// The height that must be free before line `i` is placed: all three
    /// lines of a paragraph of three, the first two lines at the first
    /// line, the last two lines at the second to last line, and else the
    /// line alone.
    pub open spec fn needed(self, i: int) -> Abs {
        let len = self.frames.len();
        let front_1 = height_at(self.frames, 0);
        let front_2 = height_at(self.frames, 1);
        let back_2 = height_at(self.frames, if len >= 2 { len - 2 } else { 0 });
        let back_1 = height_at(self.frames, if len >= 1 { len - 1 } else { 0 });
        if self.prevent_all() && i == 0 {
            front_1.plus(self.leading).plus(front_2).plus(self.leading).plus(back_1)
        } else if self.prevent_orphans && i == 0 {
            front_1.plus(self.leading).plus(front_2)
        } else if self.prevent_widows && i >= 2 && i + 2 == len {
            back_2.plus(self.leading).plus(back_1)
        } else {
            height_at(self.frames, i)
        }
    }
}

/// The vertical alignment of an automatic float that `remaining` of a
/// region of height `full` is left for, and that takes `height` with its
/// clearance.
///
/// The float would start where the flow has come to, `full - remaining`
/// below the top, so its middle would lie at `full - remaining + height / 2`.
/// Where that is above the middle of the region, at `full / 2`, the float
/// goes to the bottom, and else to the top: it goes to the edge that is
/// farther from where the flow has come to. The middle lies above that of
/// the region where `2 * remaining - height > full`. With `+∞` this reads as
/// with numbers: nothing is above the middle of a region without end, nor is
/// the middle of a float without end.
pub open spec fn float_align(remaining: Abs, height: Abs, full: Abs) -> FixedAlignment {
    if !full.is_finite() || !height.is_finite() {
        FixedAlignment::Start
    } else if !remaining.is_finite() {
        FixedAlignment::End
    } else if 2 * remaining.raw - height.raw > full.raw {
        FixedAlignment::End
    } else {
        FixedAlignment::Start
    }
}

/// The frame of the first region of a layout. For a layout into a single
/// region it is the only one.
pub open spec fn first_frame(frames: Result<Seq<FrameView>, LayoutError>) -> Result<
    FrameView,
    LayoutError,
> {
    match frames {
        Ok(frames) => Ok(frames[0]),
        Err(e) => Err(e),
    }
}

/// What laying out content into regions yields: an error where the layout
/// is nested too deeply, and else the frames of the flow that the content
/// is, or is realized as.
#[verifier::opaque]
pub open spec fn layout_fragment(
    engine: Engine,
    content: Content,
    styles: Styles,
    regions: RegionsView,
) -> Result<Seq<FrameView>, LayoutError>
    decreases engine.route.depth_left(), usize::MAX + 1, 0nat, 0nat, 1nat,
{
    layout_fragment_def(engine, content, styles, regions)
}

/// What [`layout_fragment`] stands for.
#[verifier::opaque]
pub open spec fn layout_fragment_def(
    engine: Engine,
    content: Content,
    styles: Styles,
    regions: RegionsView,
) -> Result<Seq<FrameView>, LayoutError>
    decreases engine.route.depth_left(), usize::MAX + 1, 0nat, 0nat, 0nat,
{
    let route = engine.route.extend();
    if !route.within(MAX_LAYOUT_DEPTH) {
        Err(LayoutError::MaxLayoutDepth(content.span))
    } else {
        let children = match *content.elem {
            Elem::Flow(flow) => flow.children@,
            _ => realized(content, styles),
        };
        FlowState::new(Engine { route }, styles, content.span, children, regions).layout(children)
    }
}

/// What laying out content into a single region yields.
#[verifier::opaque]
pub open spec fn layout_frame(engine: Engine, content: Content, styles: Styles, region: Region) -> Result<
    FrameView,
    LayoutError,
>
    decreases engine.route.depth_left(), usize::MAX + 2, 0nat, 0nat, 1nat,
{
    layout_frame_def(engine, content, styles, region)
}

/// What [`layout_frame`] stands for.
#[verifier::opaque]
pub open spec fn layout_frame_def(engine: Engine, content: Content, styles: Styles, region: Region) -> Result<
    FrameView,
    LayoutError,
>
    decreases engine.route.depth_left(), usize::MAX + 2, 0nat, 0nat, 0nat,
{
    first_frame(layout_fragment(engine, content, styles, RegionsView::single(region)))
}

/// What laying out a block yields: the frames of its body.
#[verifier::opaque]
pub open spec fn layout_block(
    engine: Engine,
    block: BlockElem,
    styles: Styles,
    regions: RegionsView,
) -> Result<Seq<FrameView>, LayoutError>
    decreases engine.route.depth_left(), usize::MAX + 2, 0nat, 0nat, 1nat,
{
    layout_block_def(engine, block, styles, regions)
}

/// What [`layout_block`] stands for.
#[verifier::opaque]
pub open spec fn layout_block_def(
    engine: Engine,
    block: BlockElem,
    styles: Styles,
    regions: RegionsView,
) -> Result<Seq<FrameView>, LayoutError>
    decreases engine.route.depth_left(), usize::MAX + 2, 0nat, 0nat, 0nat,
{
    layout_fragment(engine, block.body, styles, regions)
}

/// Whether a placed element floats and is aligned where no float can be:
/// in the middle, or on no vertical side at all.
pub open spec fn float_misplaced(place: PlaceElem) -> bool {
    place.float && (place.alignment matches Smart::Custom(alignment) && (alignment.y is None
        || alignment.y == Some(FixedAlignment::Center)))
}

/// What laying out a placed element yields: an error for a float that is
/// aligned where no float can be, and else the frame of the body in a
/// region of the size of the base that nothing must fill.
#[verifier::opaque]
pub open spec fn layout_placed(
    engine: Engine,
    place: PlaceElem,
    span: Span,
    styles: Styles,
    base: Size,
) -> Result<
    FrameView,
    LayoutError,
>
    decreases engine.route.depth_left(), usize::MAX + 3, 0nat, 0nat, 1nat,
{
    layout_placed_def(engine, place, span, styles, base)
}

/// What [`layout_placed`] stands for.
#[verifier::opaque]
pub open spec fn layout_placed_def(
    engine: Engine,
    place: PlaceElem,
    span: Span,
    styles: Styles,
    base: Size,
) -> Result<
    FrameView,
    LayoutError,
>
    decreases engine.route.depth_left(), usize::MAX + 3, 0nat, 0nat, 0nat,
{
    if float_misplaced(place) {
        Err(LayoutError::FloatPlacement(span))
    } else {
        layout_frame(
            engine,
            place.body,
            styles,
            Region::new(base, Axes { x: false, y: false }),
        )
    }
}

/// Whether a step of the layouter came out as the model says: it failed
/// with the model's error, or it succeeded and left the model's state,
/// which follows the state before.
pub open spec fn ran(pre: FlowState, step: Step, post: FlowState, r: Result<(), LayoutError>) -> bool {
    match step {
        Ok(next) => r is Ok && post == next && post.follows(pre),
        Err(e) => r == Err::<(), LayoutError>(e),
    }
}

/// Whether the handling of footnotes came out as the model says.
pub open spec fn ran_notes(
    pre: FlowState,
    step: Result<Footnoted, LayoutError>,
    post: FlowState,
    notes: Seq<Content>,
    r: Result<bool, LayoutError>,
) -> bool {
    match step {
        Ok(next) => r == Ok::<bool, LayoutError>(next.fit) && post == next.state && notes
            == next.notes && post.follows(pre),
        Err(e) => r == Err::<bool, LayoutError>(e),
    }
}

/// Whether a layout came out as the model says: it failed with the model's
/// error, or it succeeded with the model's frames.
pub open spec fn laid_out(
    frames: Result<Seq<FrameView>, LayoutError>,
    r: Result<Vec<crate::frame::Frame>, LayoutError>,
) -> bool {
    match frames {
        Ok(frames) => r is Ok && frame_views(r->Ok_0@) == frames,
        Err(e) => r is Err && r->Err_0 == e,
    }
}

impl FlowState {
    /// The state in which a flow of `children` starts.
    ///
    /// A flow that holds a single block keeps the vertical expansion of its
    /// regions, so that the block can take the full height; any other flow
    /// gives it up. The regions that the children see are never the
    /// outermost.
    pub open spec fn new(
        engine: Engine,
        styles: Styles,
        span: Span,
        children: Seq<StyledElem>,
        regions: RegionsView,
    ) -> FlowState {
        let alone = children.len() == 1 && *children[0].child.elem is Block;
        FlowState {
            engine,
            styles,
            span,
            root: regions.root,
            regions: RegionsView {
                expand: Axes { x: regions.expand.x, y: alone && regions.expand.y },
                root: false,
                ..regions
            },
            expand: regions.expand,
            initial: regions.size,
            last_was_par: false,
            items: Seq::empty(),
            pending_tags: Seq::empty(),
            pending_floats: Seq::empty(),
            has_footnotes: false,
            finished: Seq::empty(),
        }
    }

    /// How many more regions the flow can finish.
    pub open spec fn budget(self) -> nat {
        if self.finished.len() <= usize::MAX {
            (usize::MAX - self.finished.len()) as nat
        } else {
            0
        }
    }

    /// Whether this state can follow `prev` in one layout: engine and
    /// styles are the same, and no finished frame was taken back.
    pub open spec fn follows(self, prev: FlowState) -> bool {
        &&& self.engine == prev.engine
        &&& self.styles == prev.styles
        &&& self.budget() <= prev.budget()
    }

    /// Whether this state can follow `prev` after a region was finished.
    pub open spec fn passes(self, prev: FlowState) -> bool {
        &&& self.engine == prev.engine
        &&& self.styles == prev.styles
        &&& self.budget() < prev.budget()
    }

    /// The result of a step from this state, handed on where it follows
    /// this state.
    pub open spec fn after(self, step: Step) -> Step {
        match step {
            Ok(next) => if next.follows(self) {
                Ok(next)
            } else {
                Err(arbitrary())
            },
            Err(e) => Err(e),
        }
    }

    /// The result of a step from this state that finishes a region, handed
    /// on where it passes this state.
    pub open spec fn past(self, step: Step) -> Step {
        match step {
            Ok(next) => if next.passes(self) {
                Ok(next)
            } else {
                Err(arbitrary())
            },
            Err(e) => Err(e),
        }
    }

    /// The result of handling footnotes from this state, handed on where
    /// its state follows this state.
    pub open spec fn after_notes(self, step: Result<Footnoted, LayoutError>) -> Result<
        Footnoted,
        LayoutError,
    > {
        match step {
            Ok(next) => if next.state.follows(self) {
                Ok(next)
            } else {
                Err(arbitrary())
            },
            Err(e) => Err(e),
        }
    }

    /// The result of a migration from this state, handed on where its state
    /// passes this state.
    pub open spec fn past_migrated(self, step: Result<Migrated, LayoutError>) -> Result<
        Migrated,
        LayoutError,
    > {
        match step {
            Ok(next) => if next.state.passes(self) {
                Ok(next)
            } else {
                Err(arbitrary())
            },
            Err(e) => Err(e),
        }
    }

    /// The state with `height` taken from what is left of the region.
    pub open spec fn spend(self, height: Abs) -> FlowState {
        FlowState {
            regions: RegionsView {
                size: Size::new(self.regions.size.x, self.regions.size.y.minus(height)),
                ..self.regions
            },
            ..self
        }
    }

    /// The state with one more item in the region.
    pub open spec fn push(self, item: FlowItemView) -> FlowState {
        FlowState { items: self.items.push(item), ..self }
    }

    /// The state without the last item of the region, if it has one.
    pub open spec fn pop(self) -> FlowState {
        if self.items.len() > 0 {
            FlowState { items: self.items.drop_last(), ..self }
        } else {
            self
        }
    }

    /// The state with the last of `items`, if there is one, as one more
    /// item in the region.
    pub open spec fn push_back(self, items: Seq<FlowItemView>) -> FlowState {
        if items.len() > 0 {
            self.push(items.last())
        } else {
            self
        }
    }

    /// The state with the pending tags attached to the frame, and the
    /// frame with them: where tags are pending and the frame is not empty,
    /// the tags go below the items of the frame.
    pub open spec fn drain_tag(self, frame: FrameView) -> (FlowState, FrameView) {
        if self.pending_tags.len() > 0 && !frame.is_empty() {
            (
                FlowState { pending_tags: Seq::empty(), ..self },
                frame.prepend_tags(self.pending_tags),
            )
        } else {
            (self, frame)
        }
    }

    /// The frame that is finished for the current region: the items without
    /// the weak spacing at their end, placed; and, where the region is
    /// forced, the pending tags at the place that the flow has reached.
    #[verifier::opaque]
    pub open spec fn region_frame(self, force: bool) -> FrameView {
        let cursor = placed(
            trim_weak(self.items),
            self.initial,
            self.expand,
            self.has_footnotes,
            self.styles.footnote_gap,
        );
        if force && self.pending_tags.len() > 0 {
            cursor.output.push_tags(Point::with_y(cursor.offset), self.pending_tags)
        } else {
            cursor.output
        }
    }

    /// Whether finishing the region only leaves an empty frame behind: it
    /// is not forced, and the region holds items that are all out of the
    /// flow.
    pub open spec fn skips_region(self, force: bool) -> bool {
        !force && self.items.len() > 0 && all_out_of_flow(self.items)
    }

    /// The error of a flow that must fill a region along an axis on which
    /// what is left of the region has no end: the width comes first.
    pub open spec fn infinite_axis(self) -> Option<LayoutError> {
        if !self.regions.size.x.is_finite() && self.expand.x {
            Some(LayoutError::InfiniteWidth(self.span))
        } else if !self.regions.size.y.is_finite() && self.expand.y {
            Some(LayoutError::InfiniteHeight(self.span))
        } else {
            None
        }
    }

    /// The state in which the region after a skipped one is entered: an
    /// empty frame of the region's size is finished, and the items stay.
    pub open spec fn skipped(self) -> FlowState {
        let regions = self.regions.next();
        FlowState {
            finished: self.finished.push(FrameView::soft(self.initial)),
            regions,
            initial: regions.size,
            ..self
        }
    }

    /// The state in which the region after a finished one is entered: the
    /// frame of the region is finished, and nothing is left of its items
    /// or of the floats that were pending.
    pub open spec fn entered(self, force: bool) -> FlowState {
        let regions = self.regions.next();
        FlowState {
            items: Seq::empty(),
            pending_tags: if force {
                Seq::empty()
            } else {
                self.pending_tags
            },
            pending_floats: Seq::empty(),
            finished: self.finished.push(self.region_frame(force)),
            regions,
            initial: regions.size,
            has_footnotes: false,
            ..self
        }
    }

    /// The state after the frame for one region is finished.
    ///
    /// Where the region is skipped, an empty frame of the region's size is
    /// finished and the items stay for the next region. Otherwise the frame
    /// of the region is finished, unless the flow must fill a region that
    /// is infinite on that axis, which is an error; the next region is
    /// entered, and the pending floats are handled again, in order.
    #[verifier::opaque]
    pub open spec fn finish_region(self, force: bool) -> Step
        decreases self.engine.route.depth_left() + 1, self.budget(), 1nat, 0nat, 1nat,
    {
        self.finish_region_def(force)
    }

    /// What [`FlowState::finish_region`] stands for.
    #[verifier::opaque]
    pub open spec fn finish_region_def(self, force: bool) -> Step
        decreases self.engine.route.depth_left() + 1, self.budget(), 1nat, 0nat, 0nat,
    {
        if self.skips_region(force) {
            Ok(self.skipped())
        } else if !self.regions.size.x.is_finite() && self.expand.x {
            Err(LayoutError::InfiniteWidth(self.span))
        } else if !self.regions.size.y.is_finite() && self.expand.y {
            Err(LayoutError::InfiniteHeight(self.span))
        } else {
            let next = self.entered(force);
            if next.passes(self) {
                next.feed(self.pending_floats, 0)
            } else {
                Err(arbitrary())
            }
        }
    }

    /// The state after the items from the `i`-th on are handled, in order.
    #[verifier::opaque]
    pub open spec fn feed(self, items: Seq<FlowItemView>, i: nat) -> Step
        decreases self.engine.route.depth_left() + 1, self.budget(), 8nat, items.len() - i, 1nat,
    {
        self.feed_def(items, i)
    }

    /// What [`FlowState::feed`] stands for.
    #[verifier::opaque]
    pub open spec fn feed_def(self, items: Seq<FlowItemView>, i: nat) -> Step
        decreases self.engine.route.depth_left() + 1, self.budget(), 8nat, items.len() - i, 0nat,
    {
        if i >= items.len() {
            Ok(self)
        } else {
            match self.after(self.handle_item(items[i as int])) {
                Ok(next) => next.feed(items, i + 1),
                Err(e) => Err(e),
            }
        }
    }

    /// The state after regions are finished until `height` fits into the
    /// current one, or the current one is the last.
    #[verifier::opaque]
    pub open spec fn make_room(self, height: Abs) -> Step
        decreases self.engine.route.depth_left() + 1, self.budget(), 6nat, 0nat, 1nat,
    {
        self.make_room_def(height)
    }

    /// What [`FlowState::make_room`] stands for.
    #[verifier::opaque]
    pub open spec fn make_room_def(self, height: Abs) -> Step
        decreases self.engine.route.depth_left() + 1, self.budget(), 6nat, 0nat, 0nat,
    {
        if !self.regions.size.y.fits(height) && !self.regions.in_last() {
            match self.past(self.finish_region(false)) {
                Ok(next) => next.make_room(height),
                Err(e) => Err(e),
            }
        } else {
            Ok(self)
        }
    }

    /// A float as it is placed: an automatic alignment is decided, the
    /// clearance is added to the frame's height, and in a float at the
    /// bottom the content moves down by the clearance.
    pub open spec fn docked(self, item: FlowItemView) -> FlowItemView
        recommends
            item is Placed,
    {
        let frame = item->Placed_frame;
        let clearance = item->Placed_clearance;
        let y_align = if item->Placed_y_align is Auto {
            Smart::Custom(
                Some(
                    float_align(
                        self.regions.size.y,
                        frame.size.y.plus(clearance),
                        self.regions.full,
                    ),
                ),
            )
        } else {
            item->Placed_y_align
        };
        let taller = frame.taller(clearance);
        FlowItemView::Placed {
            frame: if y_align == Smart::Custom(Some(FixedAlignment::End)) {
                taller.translate(Point::with_y(clearance))
            } else {
                taller
            },
            x_align: item->Placed_x_align,
            y_align,
            delta: item->Placed_delta,
            float: item->Placed_float,
            clearance,
        }
    }

    /// Whether a float must wait: floats are waiting already, or the float
    /// does not fit with its clearance while the region is not the last.
    pub open spec fn must_queue(self, frame: FrameView, clearance: Abs) -> bool {
        self.pending_floats.len() > 0 || (!self.regions.size.y.fits(
            frame.size.y.plus(clearance),
        ) && !self.regions.in_last())
    }

    /// The state after a frame and its footnotes, which did not fit next to
    /// it, are moved on: the frame, which is the last item, is taken out,
    /// the region is finished, and in the region that follows the frame
    /// is taken in again, and the footnotes are placed whether they fit or
    /// not.
    #[verifier::opaque]
    pub open spec fn move_on(self, notes: Seq<Content>, height: Abs) -> Step
        decreases self.engine.route.depth_left() + 1, self.budget(), 5nat, 0nat, 1nat,
    {
        self.move_on_def(notes, height)
    }

    /// What [`FlowState::move_on`] stands for.
    #[verifier::opaque]
    pub open spec fn move_on_def(self, notes: Seq<Content>, height: Abs) -> Step
        decreases self.engine.route.depth_left() + 1, self.budget(), 5nat, 0nat, 0nat,
    {
        match self.after(self.pop().finish_region(false)) {
            Err(e) => Err(e),
            Ok(fresh) => match fresh.push_back(self.items).spend(height).handle_footnotes(
                notes,
                true,
                true,
            ) {
                Err(e) => Err(e),
                Ok(forced) => Ok(forced.state),
            },
        }
    }

    /// The state after a frame is taken into the current region, which has
    /// room for it or is the last. In the root flow a movable frame brings
    /// its footnotes along; where they do not fit next to it, frame and
    /// footnotes are moved on.
    #[verifier::opaque]
    pub open spec fn take_frame(self, item: FlowItemView) -> Step
        recommends
            item is Frame,
        decreases self.engine.route.depth_left() + 1, self.budget(), 6nat, 0nat, 1nat,
    {
        self.take_frame_def(item)
    }

    /// What [`FlowState::take_frame`] stands for.
    #[verifier::opaque]
    pub open spec fn take_frame_def(self, item: FlowItemView) -> Step
        recommends
            item is Frame,
        decreases self.engine.route.depth_left() + 1, self.budget(), 6nat, 0nat, 0nat,
    {
        let frame = item->Frame_frame;
        let with = self.spend(frame.size.y).push(item);
        if self.root && item->Frame_movable {
            match self.after_notes(
                with.handle_footnotes(
                    collect_footnotes(Seq::empty(), frame),
                    true,
                    self.regions.in_last(),
                ),
            ) {
                Err(e) => Err(e),
                Ok(done) => if done.fit {
                    Ok(done.state)
                } else {
                    done.state.move_on(done.notes, frame.size.y)
                },
            }
        } else {
            Ok(with)
        }
    }

    /// The state after a float is docked in the current region, with its
    /// footnotes where the flow is the root.
    #[verifier::opaque]
    pub open spec fn take_float(self, item: FlowItemView) -> Step
        recommends
            item is Placed,
        decreases self.engine.route.depth_left() + 1, self.budget(), 6nat, 0nat, 1nat,
    {
        self.take_float_def(item)
    }

    /// What [`FlowState::take_float`] stands for.
    #[verifier::opaque]
    pub open spec fn take_float_def(self, item: FlowItemView) -> Step
        recommends
            item is Placed,
        decreases self.engine.route.depth_left() + 1, self.budget(), 6nat, 0nat, 0nat,
    {
        let docked = self.docked(item);
        let spent = self.spend(docked->Placed_frame.size.y);
        if self.root {
            match spent.try_handle_footnotes(
                collect_footnotes(Seq::empty(), docked->Placed_frame),
            ) {
                Err(e) => Err(e),
                Ok(next) => Ok(next.push(docked)),
            }
        } else {
            Ok(spent.push(docked))
        }
    }

    /// The state after an item is handled.
    ///
    /// Weak spacing is dropped where no frame precedes it in the region;
    /// other spacing takes its length from the region. A frame waits for a
    /// region that it fits into, or for the last, and is taken in there.
    /// Placed content that does not float takes no space. A float waits
    /// where it must, and else is docked and takes its height with its
    /// clearance.
    #[verifier::opaque]
    pub open spec fn handle_item(self, item: FlowItemView) -> Step
        decreases self.engine.route.depth_left() + 1, self.budget(), 7nat, 0nat, 1nat,
    {
        self.handle_item_def(item)
    }

    /// What [`FlowState::handle_item`] stands for.
    #[verifier::opaque]
    pub open spec fn handle_item_def(self, item: FlowItemView) -> Step
        decreases self.engine.route.depth_left() + 1, self.budget(), 7nat, 0nat, 0nat,
    {
        match item {
            FlowItemView::Absolute(v, weak) => if weak && !has_frame(self.items) {
                Ok(self)
            } else {
                Ok(self.spend(v).push(item))
            },
            FlowItemView::Fractional(_) => Ok(self.push(item)),
            FlowItemView::Footnote(_) => Ok(self.push(item)),
            FlowItemView::Frame { frame, .. } => match self.after(self.make_room(frame.size.y)) {
                Err(e) => Err(e),
                Ok(roomy) => roomy.take_frame(item),
            },
            FlowItemView::Placed { frame, float, clearance, .. } => if !float {
                Ok(self.push(item))
            } else if self.must_queue(frame, clearance) {
                Ok(FlowState { pending_floats: self.pending_floats.push(item), ..self })
            } else {
                self.take_float(item)
            },
        }
    }

    /// The state after the footnotes of a frame that is not movable are
    /// handled: where they do not fit, they go to the next region. Only the
    /// root flow handles footnotes.
    #[verifier::opaque]
    pub open spec fn try_handle_footnotes(self, notes: Seq<Content>) -> Step
        decreases self.engine.route.depth_left() + 1, self.budget(), 5nat, 0nat, 1nat,
    {
        self.try_handle_footnotes_def(notes)
    }

    /// What [`FlowState::try_handle_footnotes`] stands for.
    #[verifier::opaque]
    pub open spec fn try_handle_footnotes_def(self, notes: Seq<Content>) -> Step
        decreases self.engine.route.depth_left() + 1, self.budget(), 5nat, 0nat, 0nat,
    {
        if !self.root {
            Ok(self)
        } else {
            match self.after_notes(self.handle_footnotes(notes, false, self.regions.in_last())) {
                Err(e) => Err(e),
                Ok(done) => if done.fit {
                    Ok(done.state)
                } else {
                    match self.after(done.state.finish_region(false)) {
                        Err(e) => Err(e),
                        Ok(fresh) => match fresh.handle_footnotes(done.notes, false, true) {
                            Err(e) => Err(e),
                            Ok(forced) => Ok(forced.state),
                        },
                    }
                },
            }
        }
    }

    /// The state after the footnote separator is laid out and placed: its
    /// frame, with the clearance above it, is the first footnote of the
    /// region.
    #[verifier::opaque]
    pub open spec fn layout_footnote_separator(self) -> Step
        decreases self.engine.route.depth_left() + 1, self.budget(), 0nat, 0nat, 1nat,
    {
        self.layout_footnote_separator_def()
    }

    /// What [`FlowState::layout_footnote_separator`] stands for.
    #[verifier::opaque]
    pub open spec fn layout_footnote_separator_def(self) -> Step
        decreases self.engine.route.depth_left() + 1, self.budget(), 0nat, 0nat, 0nat,
    {
        let pod = Region::new(
            self.regions.base(),
            Axes { x: self.regions.expand.x, y: false },
        );
        match layout_frame(self.engine, self.styles.footnote_separator, self.styles, pod) {
            Err(e) => Err(e),
            Ok(frame) => {
                let clearance = self.styles.footnote_clearance;
                let frame = frame.taller(clearance).translate(Point::with_y(clearance));
                Ok(
                    FlowState { has_footnotes: true, ..self }.spend(frame.size.y).push(
                        FlowItemView::Footnote(frame),
                    ),
                )
            },
        }
    }

    /// What a flow remembers of this state in order to undo the placement
    /// of footnotes.
    pub open spec fn snapshot(self, notes: Seq<Content>) -> Snapshot {
        Snapshot {
            notes_len: notes.len() as usize,
            items_len: self.items.len() as usize,
            size: self.regions.size,
            has_footnotes: self.has_footnotes,
        }
    }

    /// What handling the notes yields.
    ///
    /// The entries are placed one note at a time. Where the first frame of
    /// the entry of the first note comes back empty, the entry did not fit;
    /// unless the placement is forced, everything is then undone, and the
    /// answer is that the notes did not fit. Past the first note every
    /// entry is kept. `movable` says whether the notes are those of a
    /// movable frame, which goes along where they do not fit; what is
    /// placed does not depend on it.
    pub open spec fn handle_footnotes(self, notes: Seq<Content>, movable: bool, force: bool) -> Result<
        Footnoted,
        LayoutError,
    >
        decreases self.engine.route.depth_left() + 1, self.budget(), 4nat, usize::MAX + 1, 0nat,
    {
        self.footnotes_from(self.snapshot(notes), notes, 0, force)
    }

    /// The state with the placement of footnotes undone, as far as a flow
    /// remembers it.
    pub open spec fn rolled_back(self, snapshot: Snapshot) -> FlowState {
        FlowState {
            items: if snapshot.items_len < self.items.len() {
                self.items.take(snapshot.items_len as int)
            } else {
                self.items
            },
            regions: RegionsView { size: snapshot.size, ..self.regions },
            has_footnotes: snapshot.has_footnotes,
            ..self
        }
    }

    /// What handling the notes from the `k`-th on yields.
    #[verifier::opaque]
    pub open spec fn footnotes_from(
        self,
        snapshot: Snapshot,
        notes: Seq<Content>,
        k: nat,
        force: bool,
    ) -> Result<Footnoted, LayoutError>
        decreases self.engine.route.depth_left() + 1, self.budget(), 4nat, usize::MAX - k, 1nat,
    {
        self.footnotes_from_def(snapshot, notes, k, force)
    }

    /// What [`FlowState::footnotes_from`] stands for.
    #[verifier::opaque]
    pub open spec fn footnotes_from_def(
        self,
        snapshot: Snapshot,
        notes: Seq<Content>,
        k: nat,
        force: bool,
    ) -> Result<Footnoted, LayoutError>
        decreases self.engine.route.depth_left() + 1, self.budget(), 4nat, usize::MAX - k, 0nat,
    {
        if k >= notes.len() {
            Ok(Footnoted { state: self, notes, fit: true })
        } else if notes.len() > usize::MAX {
            Err(arbitrary())
        } else {
            match note_body(notes[k as int]) {
                None => self.footnotes_from(snapshot, notes, k + 1, force),
                Some(body) => match self.after_notes(
                    self.handle_footnote(snapshot, notes, k, body, force),
                ) {
                    Err(e) => Err(e),
                    Ok(done) => if done.fit {
                        done.state.footnotes_from(snapshot, done.notes, k + 1, force)
                    } else {
                        Ok(done)
                    },
                },
            }
        }
    }

    /// Whether the entry of the `k`-th note, which came out as `frames`,
    /// did not fit and everything is undone: the first frame is empty, the
    /// placement is not forced, and the note is the first. Past the first
    /// note an entry is kept as it came.
    pub open spec fn gives_up(frames: Seq<FrameView>, k: nat, force: bool) -> bool {
        !force && k == 0 && frames.len() > 0 && frames[0].is_empty()
    }

    /// What handling the `k`-th note, whose entry is `body`, yields.
    ///
    /// The first footnote of a region brings the separator. The gap is
    /// taken from the region, and the entry is laid out into what is left
    /// of the regions. Where that gives up, everything is undone. Otherwise
    /// the frames of the entry are placed, and the notes that were found in
    /// them are handled next, before the other notes.
    #[verifier::opaque]
    pub open spec fn handle_footnote(
        self,
        snapshot: Snapshot,
        notes: Seq<Content>,
        k: nat,
        body: Content,
        force: bool,
    ) -> Result<Footnoted, LayoutError>
        decreases self.engine.route.depth_left() + 1, self.budget(), 3nat, 1nat, 1nat,
    {
        self.handle_footnote_def(snapshot, notes, k, body, force)
    }

    /// What [`FlowState::handle_footnote`] stands for.
    #[verifier::opaque]
    pub open spec fn handle_footnote_def(
        self,
        snapshot: Snapshot,
        notes: Seq<Content>,
        k: nat,
        body: Content,
        force: bool,
    ) -> Result<Footnoted, LayoutError>
        decreases self.engine.route.depth_left() + 1, self.budget(), 3nat, 1nat, 0nat,
    {
        match self.after(self.start_footnote()) {
            Err(e) => Err(e),
            Ok(charged) => if notes[k as int].location is None {
                Err(LayoutError::UnlocatedFootnote(notes[k as int].span))
            } else {
                match layout_fragment(
                    self.engine,
                    body,
                    self.styles,
                    charged.regions.with_root(false),
                ) {
                    Err(e) => Err(e),
                    Ok(frames) => charged.end_footnote(snapshot, notes, k, frames, force),
                }
            },
        }
    }

    /// The state in which the entry of a footnote is laid out: the first
    /// footnote of a region brings the separator, and every footnote takes
    /// the gap from the region.
    #[verifier::opaque]
    pub open spec fn start_footnote(self) -> Step
        decreases self.engine.route.depth_left() + 1, self.budget(), 3nat, 0nat, 1nat,
    {
        self.start_footnote_def()
    }

    /// What [`FlowState::start_footnote`] stands for.
    #[verifier::opaque]
    pub open spec fn start_footnote_def(self) -> Step
        decreases self.engine.route.depth_left() + 1, self.budget(), 3nat, 0nat, 0nat,
    {
        let separated = if self.has_footnotes {
            Ok(self)
        } else {
            self.after(self.layout_footnote_separator())
        };
        match separated {
            Err(e) => Err(e),
            Ok(separated) => Ok(separated.spend(self.styles.footnote_gap)),
        }
    }

    /// What comes of the entry of the `k`-th note, which was laid out as
    /// `frames`. Where it gives up, everything is undone. Otherwise the
    /// frames are placed, and the notes that were found in them are
    /// handled next, before the other notes.
    #[verifier::opaque]
    pub open spec fn end_footnote(
        self,
        snapshot: Snapshot,
        notes: Seq<Content>,
        k: nat,
        frames: Seq<FrameView>,
        force: bool,
    ) -> Result<Footnoted, LayoutError>
        decreases self.engine.route.depth_left() + 1, self.budget(), 3nat, 0nat, 1nat,
    {
        self.end_footnote_def(snapshot, notes, k, frames, force)
    }

    /// What [`FlowState::end_footnote`] stands for.
    #[verifier::opaque]
    pub open spec fn end_footnote_def(
        self,
        snapshot: Snapshot,
        notes: Seq<Content>,
        k: nat,
        frames: Seq<FrameView>,
        force: bool,
    ) -> Result<Footnoted, LayoutError>
        decreases self.engine.route.depth_left() + 1, self.budget(), 3nat, 0nat, 0nat,
    {
        if FlowState::gives_up(frames, k, force) {
            Ok(
                Footnoted {
                    state: self.rolled_back(snapshot),
                    notes: if snapshot.notes_len < notes.len() {
                        notes.take(snapshot.notes_len as int)
                    } else {
                        notes
                    },
                    fit: false,
                },
            )
        } else {
            match self.after_notes(self.place_entry(notes, frames, 0)) {
                Err(e) => Err(e),
                Ok(entered) => {
                    let nested = entered.notes.len() - notes.len();
                    Ok(
                        Footnoted {
                            state: entered.state,
                            notes: if nested > 0 {
                                rotate_notes(entered.notes, k as int + 1, nested)
                            } else {
                                entered.notes
                            },
                            fit: true,
                        },
                    )
                },
            }
        }
    }

    /// The state in which the next frame of an entry is placed: the region
    /// is finished, and the region that follows gets its separator and
    /// gives up the gap.
    #[verifier::opaque]
    pub open spec fn continue_entry(self) -> Step
        decreases self.engine.route.depth_left() + 1, self.budget(), 2nat, 0nat, 1nat,
    {
        self.continue_entry_def()
    }

    /// What [`FlowState::continue_entry`] stands for.
    #[verifier::opaque]
    pub open spec fn continue_entry_def(self) -> Step
        decreases self.engine.route.depth_left() + 1, self.budget(), 2nat, 0nat, 0nat,
    {
        match self.after(self.finish_region(false)) {
            Err(e) => Err(e),
            Ok(fresh) => match fresh.after(fresh.layout_footnote_separator()) {
                Err(e) => Err(e),
                Ok(separated) => Ok(separated.spend(self.styles.footnote_gap)),
            },
        }
    }

    /// What placing the frames of an entry from the `i`-th on yields: each
    /// frame is a footnote of its region; between two frames the region is
    /// finished and the next one gets its separator.
    #[verifier::opaque]
    pub open spec fn place_entry(self, notes: Seq<Content>, frames: Seq<FrameView>, i: nat) -> Result<
        Footnoted,
        LayoutError,
    >
        decreases self.engine.route.depth_left() + 1, self.budget(), 2nat, frames.len() - i, 1nat,
    {
        self.place_entry_def(notes, frames, i)
    }

    /// What [`FlowState::place_entry`] stands for.
    #[verifier::opaque]
    pub open spec fn place_entry_def(self, notes: Seq<Content>, frames: Seq<FrameView>, i: nat) -> Result<
        Footnoted,
        LayoutError,
    >
        decreases self.engine.route.depth_left() + 1, self.budget(), 2nat, frames.len() - i, 0nat,
    {
        if i >= frames.len() {
            Ok(Footnoted { state: self, notes, fit: true })
        } else {
            let frame = frames[i as int];
            let entered = if i > 0 {
                self.after(self.continue_entry())
            } else {
                Ok(self)
            };
            match entered {
                Err(e) => Err(e),
                Ok(entered) => entered.spend(frame.size.y).push(
                    FlowItemView::Footnote(frame),
                ).place_entry(collect_footnotes(notes, frame), frames, i + 1),
            }
        }
    }

    /// What finishing the region with migration yields: the sticky frames
    /// at the end of the region, with the spacing between and behind them,
    /// are taken out, the region is finished, and they are handled again in
    /// the region that follows.
    #[verifier::opaque]
    pub open spec fn finish_region_with_migration(self) -> Result<Migrated, LayoutError>
        decreases self.engine.route.depth_left() + 1, self.budget(), 9nat, 0nat, 1nat,
    {
        self.finish_region_with_migration_def()
    }

    /// What [`FlowState::finish_region_with_migration`] stands for.
    #[verifier::opaque]
    pub open spec fn finish_region_with_migration_def(self) -> Result<Migrated, LayoutError>
        decreases self.engine.route.depth_left() + 1, self.budget(), 9nat, 0nat, 0nat,
    {
        let start = sticky_start(self.items) as int;
        let carry = self.items.skip(start);
        let kept = FlowState { items: self.items.take(start), ..self };
        match self.past(kept.finish_region(false)) {
            Err(e) => Err(e),
            Ok(fresh) => match fresh.feed(carry, 0) {
                Err(e) => Err(e),
                Ok(state) => Ok(Migrated { state, in_last: fresh.regions.in_last() }),
            },
        }
    }

    /// The state after regions are finished with migration until `height`
    /// fits, or the last region is reached.
    #[verifier::opaque]
    pub open spec fn migrate_until_fits(self, height: Abs) -> Step
        decreases self.engine.route.depth_left() + 1, self.budget(), 10nat, 0nat, 1nat,
    {
        self.migrate_until_fits_def(height)
    }

    /// What [`FlowState::migrate_until_fits`] stands for.
    #[verifier::opaque]
    pub open spec fn migrate_until_fits_def(self, height: Abs) -> Step
        decreases self.engine.route.depth_left() + 1, self.budget(), 10nat, 0nat, 0nat,
    {
        if !self.regions.size.y.fits(height) && !self.regions.in_last() {
            match self.past_migrated(self.finish_region_with_migration()) {
                Err(e) => Err(e),
                Ok(migrated) => if migrated.in_last {
                    Ok(migrated.state)
                } else {
                    migrated.state.migrate_until_fits(height)
                },
            }
        } else {
            Ok(self)
        }
    }

    /// Whether the region is finished before line `i`: the lines that must
    /// stay together do not fit, but fit into the next region.
    pub open spec fn breaks_before(self, lines: Lines, i: int) -> bool {
        let needed = lines.needed(i);
        !self.regions.in_last() && !self.regions.size.y.fits(needed) && (
        self.regions.at(1) matches Some(region) && region.y.fits(needed))
    }

    /// The state after line `i` is placed: after the first line the leading
    /// comes first, as weak spacing; the region is finished where it must
    /// be; and the line, with the pending tags, is a movable frame.
    #[verifier::opaque]
    pub open spec fn place_line(self, lines: Lines, i: nat) -> Step
        decreases self.engine.route.depth_left() + 1, self.budget(), 11nat, 0nat, 1nat,
    {
        self.place_line_def(lines, i)
    }

    /// What [`FlowState::place_line`] stands for.
    #[verifier::opaque]
    pub open spec fn place_line_def(self, lines: Lines, i: nat) -> Step
        decreases self.engine.route.depth_left() + 1, self.budget(), 11nat, 0nat, 0nat,
    {
        let led = if i > 0 {
            self.after(self.handle_item(FlowItemView::Absolute(lines.leading, true)))
        } else {
            Ok(self)
        };
        match led {
            Err(e) => Err(e),
            Ok(led) => {
                let broken = if led.breaks_before(lines, i as int) {
                    self.after(led.finish_region(false))
                } else {
                    Ok(led)
                };
                match broken {
                    Err(e) => Err(e),
                    Ok(broken) => {
                        let (tagged, frame) = broken.drain_tag(lines.frames[i as int]);
                        tagged.handle_item(
                            FlowItemView::Frame {
                                frame,
                                align: lines.align,
                                sticky: false,
                                movable: true,
                            },
                        )
                    },
                }
            },
        }
    }

    /// The state after the lines from the `i`-th on are placed.
    #[verifier::opaque]
    pub open spec fn place_lines(self, lines: Lines, i: nat) -> Step
        decreases self.engine.route.depth_left() + 1, self.budget(), 12nat, lines.frames.len()
            - i, 1nat,
    {
        self.place_lines_def(lines, i)
    }

    /// What [`FlowState::place_lines`] stands for.
    #[verifier::opaque]
    pub open spec fn place_lines_def(self, lines: Lines, i: nat) -> Step
        decreases self.engine.route.depth_left() + 1, self.budget(), 12nat, lines.frames.len()
            - i, 0nat,
    {
        if i >= lines.frames.len() {
            Ok(self)
        } else {
            match self.after(self.place_line(lines, i)) {
                Err(e) => Err(e),
                Ok(next) => next.place_lines(lines, i + 1),
            }
        }
    }

    /// The state after a paragraph is laid out.
    ///
    /// Where the first line does not fit, the region is finished with
    /// migration, so that sticky frames before the paragraph come along.
    /// Then the lines are placed.
    #[verifier::opaque]
    pub open spec fn handle_par(self, par: ParElem, styles: Styles) -> Step
        decreases self.engine.route.depth_left() + 1, self.budget(), 13nat, 0nat, 1nat,
    {
        self.handle_par_def(par, styles)
    }

    /// What [`FlowState::handle_par`] stands for.
    #[verifier::opaque]
    pub open spec fn handle_par_def(self, par: ParElem, styles: Styles) -> Step
        decreases self.engine.route.depth_left() + 1, self.budget(), 13nat, 0nat, 0nat,
    {
        let frames = lines_of(par, self.last_was_par, self.regions.base(), self.regions.expand.x);
        let migrated = if frames.len() > 0 {
            self.after(self.migrate_until_fits(frames[0].size.y))
        } else {
            Ok(self)
        };
        match migrated {
            Err(e) => Err(e),
            Ok(migrated) => match migrated.place_lines(Lines::new(frames, par, styles), 0) {
                Err(e) => Err(e),
                Ok(next) => Ok(FlowState { last_was_par: true, ..next }),
            },
        }
    }

    /// The state after the `i`-th frame of a block is placed: after the
    /// first frame the region is finished first; the frame, with the
    /// pending tags, is a frame of the flow that is not movable.
    #[verifier::opaque]
    pub open spec fn place_block_frame(
        self,
        frame: FrameView,
        i: nat,
        align: Axes<FixedAlignment>,
        sticky: bool,
    ) -> Step
        decreases self.engine.route.depth_left() + 1, self.budget(), 11nat, 0nat, 1nat,
    {
        self.place_block_frame_def(frame, i, align, sticky)
    }

    /// What [`FlowState::place_block_frame`] stands for.
    #[verifier::opaque]
    pub open spec fn place_block_frame_def(
        self,
        frame: FrameView,
        i: nat,
        align: Axes<FixedAlignment>,
        sticky: bool,
    ) -> Step
        decreases self.engine.route.depth_left() + 1, self.budget(), 11nat, 0nat, 0nat,
    {
        let fresh = if i > 0 {
            self.after(self.finish_region(false))
        } else {
            Ok(self)
        };
        match fresh {
            Err(e) => Err(e),
            Ok(fresh) => {
                let (tagged, frame) = fresh.drain_tag(frame);
                tagged.handle_item(FlowItemView::Frame { frame, align, sticky, movable: false })
            },
        }
    }

    /// What placing the frames of a block from the `i`-th on yields, with
    /// the footnotes that the root flow finds in them: one frame for each
    /// region.
    #[verifier::opaque]
    pub open spec fn place_block(
        self,
        frames: Seq<FrameView>,
        i: nat,
        notes: Seq<Content>,
        align: Axes<FixedAlignment>,
        sticky: bool,
    ) -> Result<Footnoted, LayoutError>
        decreases self.engine.route.depth_left() + 1, self.budget(), 12nat, frames.len() - i, 1nat,
    {
        self.place_block_def(frames, i, notes, align, sticky)
    }

    /// What [`FlowState::place_block`] stands for.
    #[verifier::opaque]
    pub open spec fn place_block_def(
        self,
        frames: Seq<FrameView>,
        i: nat,
        notes: Seq<Content>,
        align: Axes<FixedAlignment>,
        sticky: bool,
    ) -> Result<Footnoted, LayoutError>
        decreases self.engine.route.depth_left() + 1, self.budget(), 12nat, frames.len() - i, 0nat,
    {
        if i >= frames.len() {
            Ok(Footnoted { state: self, notes, fit: true })
        } else {
            let notes = if self.root {
                collect_footnotes(notes, frames[i as int])
            } else {
                notes
            };
            match self.after(self.place_block_frame(frames[i as int], i, align, sticky)) {
                Err(e) => Err(e),
                Ok(next) => next.place_block(frames, i + 1, notes, align, sticky),
            }
        }
    }

    /// The state in which a block is laid out: a rootable block in the root
    /// flow hosts its own footnotes, so its regions are the outermost and
    /// the flow is not the root meanwhile; and where the region is full,
    /// it is finished first.
    #[verifier::opaque]
    pub open spec fn enter_block(self, block: BlockElem) -> Step
        decreases self.engine.route.depth_left() + 1, self.budget(), 11nat, 0nat, 1nat,
    {
        self.enter_block_def(block)
    }

    /// What [`FlowState::enter_block`] stands for.
    #[verifier::opaque]
    pub open spec fn enter_block_def(self, block: BlockElem) -> Step
        decreases self.engine.route.depth_left() + 1, self.budget(), 11nat, 0nat, 0nat,
    {
        let deferred = if self.root && block.rootable {
            FlowState { root: false, regions: self.regions.with_root(true), ..self }
        } else {
            self
        };
        if deferred.regions.is_full() {
            deferred.finish_region(false)
        } else {
            Ok(deferred)
        }
    }

    /// The state after a block is laid out into the regions that are left.
    #[verifier::opaque]
    pub open spec fn handle_block(self, block: BlockElem, styles: Styles) -> Step
        decreases self.engine.route.depth_left() + 1, self.budget(), 13nat, 0nat, 1nat,
    {
        self.handle_block_def(block, styles)
    }

    /// What [`FlowState::handle_block`] stands for.
    #[verifier::opaque]
    pub open spec fn handle_block_def(self, block: BlockElem, styles: Styles) -> Step
        decreases self.engine.route.depth_left() + 1, self.budget(), 13nat, 0nat, 0nat,
    {
        match self.after(self.enter_block(block)) {
            Err(e) => Err(e),
            Ok(fresh) => match layout_block(self.engine, block, styles, fresh.regions) {
                Err(e) => Err(e),
                Ok(frames) => match self.after_notes(
                    fresh.place_block(frames, 0, Seq::empty(), styles.align, block.sticky),
                ) {
                    Err(e) => Err(e),
                    Ok(placed) => match placed.state.try_handle_footnotes(placed.notes) {
                        Err(e) => Err(e),
                        Ok(next) => Ok(
                            FlowState {
                                root: self.root,
                                regions: next.regions.with_root(false),
                                last_was_par: false,
                                ..next
                            },
                        ),
                    },
                },
            },
        }
    }

    /// The item that a placed element becomes: centered where its
    /// alignment says nothing at all, at the start where it says nothing of
    /// the horizontal axis.
    pub open spec fn placed_item(place: PlaceElem, frame: FrameView) -> FlowItemView {
        FlowItemView::Placed {
            frame,
            x_align: match place.alignment {
                Smart::Auto => FixedAlignment::Center,
                Smart::Custom(alignment) => match alignment.x {
                    Some(x) => x,
                    None => FixedAlignment::Start,
                },
            },
            y_align: match place.alignment {
                Smart::Auto => Smart::Auto,
                Smart::Custom(alignment) => Smart::Custom(alignment.y),
            },
            delta: Axes { x: place.dx, y: place.dy },
            float: place.float,
            clearance: place.clearance,
        }
    }

    /// The state after a placed element is laid out.
    #[verifier::opaque]
    pub open spec fn handle_place(self, place: PlaceElem, span: Span, styles: Styles) -> Step
        decreases self.engine.route.depth_left() + 1, self.budget(), 13nat, 0nat, 1nat,
    {
        self.handle_place_def(place, span, styles)
    }

    /// What [`FlowState::handle_place`] stands for.
    #[verifier::opaque]
    pub open spec fn handle_place_def(self, place: PlaceElem, span: Span, styles: Styles) -> Step
        decreases self.engine.route.depth_left() + 1, self.budget(), 13nat, 0nat, 0nat,
    {
        match layout_placed(self.engine, place, span, styles, self.regions.base()) {
            Err(e) => Err(e),
            Ok(frame) => self.handle_item(FlowState::placed_item(place, frame)),
        }
    }

    /// The item that vertical spacing becomes: a length is taken relative
    /// to the height that the region had when it was entered, and is weak
    /// where the weakness is above zero.
    pub open spec fn spacing_item(self, v: VElem) -> FlowItemView {
        match v.amount {
            Spacing::Rel(rel) => FlowItemView::Absolute(
                rel.relative_to(self.initial.y),
                v.weakness > 0,
            ),
            Spacing::Fr(fr) => FlowItemView::Fractional(fr),
        }
    }

    /// The state after vertical spacing is laid out.
    #[verifier::opaque]
    pub open spec fn handle_v(self, v: VElem) -> Step
        decreases self.engine.route.depth_left() + 1, self.budget(), 13nat, 0nat, 1nat,
    {
        self.handle_v_def(v)
    }

    /// What [`FlowState::handle_v`] stands for.
    #[verifier::opaque]
    pub open spec fn handle_v_def(self, v: VElem) -> Step
        decreases self.engine.route.depth_left() + 1, self.budget(), 13nat, 0nat, 0nat,
    {
        self.handle_item(self.spacing_item(v))
    }

    /// The state after a column break: where another region follows, the
    /// current one is finished, whatever it holds.
    #[verifier::opaque]
    pub open spec fn handle_colbreak(self) -> Step
        decreases self.engine.route.depth_left() + 1, self.budget(), 13nat, 0nat, 1nat,
    {
        self.handle_colbreak_def()
    }

    /// What [`FlowState::handle_colbreak`] stands for.
    #[verifier::opaque]
    pub open spec fn handle_colbreak_def(self) -> Step
        decreases self.engine.route.depth_left() + 1, self.budget(), 13nat, 0nat, 0nat,
    {
        if self.regions.may_progress() {
            self.finish_region(true)
        } else {
            Ok(self)
        }
    }

    /// The state after regions are finished until no float is pending.
    #[verifier::opaque]
    pub open spec fn flush_floats(self) -> Step
        decreases self.engine.route.depth_left() + 1, self.budget(), 10nat, 0nat, 1nat,
    {
        self.flush_floats_def()
    }

    /// What [`FlowState::flush_floats`] stands for.
    #[verifier::opaque]
    pub open spec fn flush_floats_def(self) -> Step
        decreases self.engine.route.depth_left() + 1, self.budget(), 10nat, 0nat, 0nat,
    {
        if self.pending_floats.len() > 0 {
            match self.past(self.finish_region(false)) {
                Err(e) => Err(e),
                Ok(next) => next.flush_floats(),
            }
        } else {
            Ok(self)
        }
    }

    /// The state after all pending floats are placed: they are handled
    /// again, and regions are finished until none is pending.
    #[verifier::opaque]
    pub open spec fn handle_flush(self) -> Step
        decreases self.engine.route.depth_left() + 1, self.budget(), 13nat, 0nat, 1nat,
    {
        self.handle_flush_def()
    }

    /// What [`FlowState::handle_flush`] stands for.
    #[verifier::opaque]
    pub open spec fn handle_flush_def(self) -> Step
        decreases self.engine.route.depth_left() + 1, self.budget(), 13nat, 0nat, 0nat,
    {
        match self.after(
            FlowState { pending_floats: Seq::empty(), ..self }.feed(self.pending_floats, 0),
        ) {
            Err(e) => Err(e),
            Ok(fed) => fed.flush_floats(),
        }
    }

    /// The state with a tag added to those that wait for the next frame.
    pub open spec fn handle_tag(self, tag: Tag) -> FlowState {
        FlowState { pending_tags: self.pending_tags.push(tag), ..self }
    }

    /// The state after a child of the flow is laid out. A child that is
    /// none of the block-level kinds is an error.
    #[verifier::opaque]
    pub open spec fn handle_child(self, child: StyledElem) -> Step
        decreases self.engine.route.depth_left() + 1, self.budget(), 14nat, 0nat, 1nat,
    {
        self.handle_child_def(child)
    }

    /// What [`FlowState::handle_child`] stands for.
    #[verifier::opaque]
    pub open spec fn handle_child_def(self, child: StyledElem) -> Step
        decreases self.engine.route.depth_left() + 1, self.budget(), 14nat, 0nat, 0nat,
    {
        match *child.child.elem {
            Elem::Tag(elem) => Ok(self.handle_tag(elem.tag)),
            Elem::V(elem) => self.handle_v(elem),
            Elem::Colbreak(_) => self.handle_colbreak(),
            Elem::Par(elem) => self.handle_par(elem, child.styles),
            Elem::Block(elem) => self.handle_block(elem, child.styles),
            Elem::Place(elem) => self.handle_place(elem, child.child.span, child.styles),
            Elem::Flush(_) => self.handle_flush(),
            _ => Err(LayoutError::UnexpectedFlowChild(child.child.span)),
        }
    }

    /// The state after the children from the `i`-th on are laid out.
    #[verifier::opaque]
    pub open spec fn handle_children(self, children: Seq<StyledElem>, i: nat) -> Step
        decreases self.engine.route.depth_left() + 1, self.budget(), 15nat, children.len() - i, 1nat,
    {
        self.handle_children_def(children, i)
    }

    /// What [`FlowState::handle_children`] stands for.
    #[verifier::opaque]
    pub open spec fn handle_children_def(self, children: Seq<StyledElem>, i: nat) -> Step
        decreases self.engine.route.depth_left() + 1, self.budget(), 15nat, children.len() - i, 0nat,
    {
        if i >= children.len() {
            Ok(self)
        } else {
            match self.after(self.handle_child(children[i as int])) {
                Err(e) => Err(e),
                Ok(next) => next.handle_children(children, i + 1),
            }
        }
    }

    /// The state after the regions of the backlog are finished.
    #[verifier::opaque]
    pub open spec fn finish_backlog(self) -> Step
        decreases self.engine.route.depth_left() + 1, self.budget(), 10nat, 0nat, 1nat,
    {
        self.finish_backlog_def()
    }

    /// What [`FlowState::finish_backlog`] stands for.
    #[verifier::opaque]
    pub open spec fn finish_backlog_def(self) -> Step
        decreases self.engine.route.depth_left() + 1, self.budget(), 10nat, 0nat, 0nat,
    {
        if self.regions.backlog.len() > 0 {
            match self.past(self.finish_region(true)) {
                Err(e) => Err(e),
                Ok(next) => next.finish_backlog(),
            }
        } else {
            Ok(self)
        }
    }

    /// The state after regions are finished until no item is left.
    #[verifier::opaque]
    pub open spec fn finish_items(self) -> Step
        decreases self.engine.route.depth_left() + 1, self.budget(), 10nat, 0nat, 1nat,
    {
        self.finish_items_def()
    }

    /// What [`FlowState::finish_items`] stands for.
    #[verifier::opaque]
    pub open spec fn finish_items_def(self) -> Step
        decreases self.engine.route.depth_left() + 1, self.budget(), 10nat, 0nat, 0nat,
    {
        if self.items.len() > 0 {
            match self.past(self.finish_region(true)) {
                Err(e) => Err(e),
                Ok(next) => next.finish_items(),
            }
        } else {
            Ok(self)
        }
    }

    /// The frames of the flow once the layout is finished: a flow that
    /// expands vertically fills every region of the backlog; the current
    /// region is finished in any case, and then regions are finished while
    /// items are left.
    #[verifier::opaque]
    pub open spec fn finish(self) -> Result<Seq<FrameView>, LayoutError>
        decreases self.engine.route.depth_left() + 1, self.budget(), 16nat, 0nat, 1nat,
    {
        self.finish_def()
    }

    /// What [`FlowState::finish`] stands for.
    #[verifier::opaque]
    pub open spec fn finish_def(self) -> Result<Seq<FrameView>, LayoutError>
        decreases self.engine.route.depth_left() + 1, self.budget(), 16nat, 0nat, 0nat,
    {
        let filled = if self.expand.y {
            self.after(self.finish_backlog())
        } else {
            Ok(self)
        };
        match filled {
            Err(e) => Err(e),
            Ok(filled) => match self.after(filled.finish_region(true)) {
                Err(e) => Err(e),
                Ok(last) => match last.finish_items() {
                    Err(e) => Err(e),
                    Ok(done) => Ok(done.finished),
                },
            },
        }
    }

    /// The frames of the flow: each child is laid out in turn, and then the
    /// layout is finished.
    #[verifier::opaque]
    pub open spec fn layout(self, children: Seq<StyledElem>) -> Result<Seq<FrameView>, LayoutError>
        decreases self.engine.route.depth_left() + 1, self.budget(), 17nat, 0nat, 1nat,
    {
        self.layout_def(children)
    }

    /// What [`FlowState::layout`] stands for.
    #[verifier::opaque]
    pub open spec fn layout_def(self, children: Seq<StyledElem>) -> Result<Seq<FrameView>, LayoutError>
        decreases self.engine.route.depth_left() + 1, self.budget(), 17nat, 0nat, 0nat,
    {
        match self.after(self.handle_children(children, 0)) {
            Err(e) => Err(e),
            Ok(laid) => laid.finish(),
        }
    }
}

} // verus!
