//! What holds of every layout.

use crate::content::{Content, Spacing, Span, StyledElem, Styles};
use crate::content::Elem;
use crate::document::{child_at, child_run, document, pages_from, pages_of_runs, Document};
use crate::engine::{Engine, LayoutError};
use crate::frame::{FrameItemView, FrameView};
use crate::geom::{Abs, FixedAlignment, Smart};
use crate::items::{has_frame, plan_of, trim_weak, Cursor, FlowItemView, Measure, Plan};
use crate::engine::MAX_LAYOUT_DEPTH;
use crate::geom::{Axes, Point, Size};
use crate::model::{
    layout_fragment,
    layout_fragment_def,
    line_of,
    lines_of,
    realized,
    sticky_scan,
    sticky_start,
    FlowState,
    Lines,
};
use crate::par::ParElem;
use crate::regions::Region;
use crate::page::{
    finalized,
    finalized_from,
    margin_on,
    needs_blank,
    binding_of,
    PageCounter,
    PageRunView,
};
use crate::regions::RegionsView;
use vstd::prelude::*;

verus! {

/// Whether every item is weak spacing.
pub open spec fn all_weak(items: Seq<FlowItemView>) -> bool {
    forall|i: int| 0 <= i < items.len() ==> (#[trigger] items[i]).is_weak()
}

/// Weak spacing at the end of the items of a region does not count: with it
/// and without it the same items are left.
pub proof fn law_trailing_weak_spacing_is_trimmed(items: Seq<FlowItemView>, tail: Seq<FlowItemView>)
    requires
        all_weak(tail),
    ensures
        trim_weak(items + tail) == trim_weak(items),
    decreases tail.len(),
{
    if tail.len() == 0 {
        assert(items + tail =~= items);
    } else {
        let all = items + tail;
        assert(all.last() == tail.last());
        assert(all.drop_last() =~= items + tail.drop_last());
        law_trailing_weak_spacing_is_trimmed(items, tail.drop_last());
    }
}

/// Weak spacing at the end of a region does not change the frame of the
/// region.
pub proof fn law_trailing_weak_spacing_leaves_no_trace(
    state: FlowState,
    tail: Seq<FlowItemView>,
    force: bool,
)
    requires
        all_weak(tail),
    ensures
        (FlowState { items: state.items + tail, ..state }).region_frame(force)
            == state.region_frame(force),
{
    reveal(FlowState::region_frame);
    law_trailing_weak_spacing_is_trimmed(state.items, tail);
}

/// Weak spacing at the start of a region is dropped: where no frame
/// precedes it in the region, handling it changes nothing.
pub proof fn law_leading_weak_spacing_is_dropped(state: FlowState, v: Abs)
    requires
        !has_frame(state.items),
    ensures
        state.handle_item(FlowItemView::Absolute(v, true)) == Ok::<FlowState, LayoutError>(state),
{
    reveal(FlowState::handle_item);
    reveal(FlowState::handle_item_def);
}

/// Placing items never changes the size of the frame.
pub proof fn law_placing_keeps_the_size(start: Cursor, items: Seq<FlowItemView>, plan: Plan)
    ensures
        Cursor::after(start, items, plan).output.size == start.output.size,
    decreases items.len(),
{
    if items.len() > 0 {
        law_placing_keeps_the_size(start, items.drop_last(), plan);
    }
}

/// A frame of the flow lies within the width of the region's frame, at the
/// place that its alignment gives: at the left edge, in the middle, or at
/// the right edge. In the middle as much is free on its left as on its
/// right, but for the thousandth of a point that cannot be halved. Said of
/// a frame that is not wider than the region's frame.
pub proof fn law_frame_is_aligned_in_the_width(cursor: Cursor, item: FlowItemView, plan: Plan)
    requires
        item is Frame,
        plan.size.x.is_finite(),
        0 <= item->Frame_frame.size.x.raw <= plan.size.x.raw,
    ensures
        ({
            let frame = item->Frame_frame;
            let output = cursor.with(item, plan).output;
            let pos = output.items.last().0;
            let left = pos.x.raw;
            let right = plan.size.x.raw - (left + frame.size.x.raw);
            &&& output.items == cursor.output.items.push((pos, FrameItemView::Group(frame)))
            &&& left >= 0
            &&& right >= 0
            &&& item->Frame_align.x is Start ==> left == 0
            &&& item->Frame_align.x is Center ==> left <= right <= left + 1
            &&& item->Frame_align.x is End ==> right == 0
        }),
{
}

/// A line of a paragraph in a flow that fills a region of finite width is
/// as wide as the region, so that it spans the frame of the region from
/// edge to edge and its middle is the middle of the frame, whatever its
/// alignment is. `base` is what the lines were made for: a region as wide
/// as the one in which the line is placed.
pub proof fn law_line_spans_the_width(
    cursor: Cursor,
    par: ParElem,
    i: int,
    consecutive: bool,
    base: Size,
    state: FlowState,
    item: FlowItemView,
    items: Seq<FlowItemView>,
)
    requires
        0 <= i < par.children@.len(),
        state.expand.x,
        state.initial.x.is_finite(),
        base.x == state.initial.x,
        item is Frame,
        item->Frame_frame == line_of(par, i, consecutive, base, true),
    ensures
        ({
            let plan = plan_of(
                items,
                state.initial,
                state.expand,
                state.has_footnotes,
                state.styles.footnote_gap,
            );
            let output = cursor.with(item, plan).output;
            &&& plan.size.x == state.initial.x
            &&& item->Frame_frame.size.x == plan.size.x
            &&& output.items.last().0.x == Abs::zero()
        }),
{
}

/// The frame of a region is never larger than the region was when it was
/// entered, whatever the region holds. Content that does not fit overflows
/// the frame; the frame does not grow for it.
pub proof fn law_frame_fits_region(state: FlowState, force: bool)
    ensures
        state.initial.x.fits(state.region_frame(force).size.x),
        state.initial.y.fits(state.region_frame(force).size.y),
{
    reveal(FlowState::region_frame);
    let items = trim_weak(state.items);
    let gap = state.styles.footnote_gap;
    let plan = plan_of(items, state.initial, state.expand, state.has_footnotes, gap);
    let start = Cursor::start(plan, Measure::of(items, gap).float_top);
    law_placing_keeps_the_size(start, items, plan);
}

/// A frame is taken into a region only where it fits, unless the region is
/// the last: once room is made for a height, the height fits into what is
/// left of the region, or no other region follows.
pub proof fn law_room_is_made(state: FlowState, height: Abs)
    ensures
        state.make_room(height) matches Ok(roomy) ==> roomy.regions.size.y.fits(height)
            || roomy.regions.in_last(),
    decreases state.budget(),
{
    reveal(FlowState::make_room);
    reveal(FlowState::make_room_def);
    reveal(FlowState::finish_region);
    if !state.regions.size.y.fits(height) && !state.regions.in_last() {
        let step = state.finish_region(false);
        if step is Ok && step->Ok_0.passes(state) {
            let next = step->Ok_0;
            assert(state.make_room(height) == next.make_room(height));
            law_room_is_made(next, height);
        }
    }
}

/// A frame never overdraws a region that is followed by another: where a
/// frame is taken into a region in which room was made for it, without
/// footnotes of its own, what is left of the region is not negative, unless
/// the backlog is used up. Spacing knows no such bound, nor do footnotes
/// that are placed whether they fit or not.
pub proof fn law_frames_do_not_overdraw(state: FlowState, item: FlowItemView)
    requires
        item is Frame,
        !(state.root && item->Frame_movable),
        state.regions.size.y.fits(item->Frame_frame.size.y) || state.regions.in_last(),
    ensures
        state.take_frame(item) matches Ok(next) ==> next.regions.size.y.raw >= 0
            || next.regions.backlog.len() == 0,
{
    reveal(FlowState::take_frame);
    reveal(FlowState::take_frame_def);
}

/// Finishing a region fails only where the flow must fill an axis without
/// end, as long as no float is waiting and the frames can still be counted:
/// it fails just where the region is not skipped and what is left of it is
/// infinite along an axis that the flow expands on, with the error of the
/// width before that of the height.
pub proof fn law_finishing_fails_only_for_infinity(state: FlowState, force: bool)
    requires
        state.pending_floats.len() == 0,
        state.finished.len() < usize::MAX,
    ensures
        state.finish_region(force) is Err <==> !state.skips_region(force)
            && state.infinite_axis() is Some,
        state.finish_region(force) matches Err(e) ==> state.infinite_axis() == Some(e),
        state.skips_region(force) ==> state.finish_region(force) == Ok::<
            FlowState,
            LayoutError,
        >(state.skipped()),
        !state.skips_region(force) && state.infinite_axis() is None ==> state.finish_region(
            force,
        ) == Ok::<FlowState, LayoutError>(state.entered(force)),
{
    reveal(FlowState::finish_region);
    reveal(FlowState::finish_region_def);
    reveal(FlowState::feed);
    reveal(FlowState::feed_def);
}

/// Whether an item is a sticky frame.
pub open spec fn is_sticky(item: FlowItemView) -> bool {
    item matches FlowItemView::Frame { sticky, .. } && sticky
}

/// Whether the items end with a sticky frame, spacing aside.
pub open spec fn ends_sticky(items: Seq<FlowItemView>) -> bool {
    exists|j: int|
        0 <= j < items.len() && is_sticky(#[trigger] items[j]) && forall|k: int|
            j < k < items.len() ==> (#[trigger] items[k]) is Absolute
}

proof fn lemma_sticky_scan(items: Seq<FlowItemView>, i: nat, sticky: nat) -> (stop: nat)
    requires
        i <= sticky <= items.len(),
        forall|k: int| i <= k < sticky ==> (#[trigger] items[k]) is Absolute,
    ensures
        stop <= sticky_scan(items, i, sticky) <= items.len(),
        forall|k: int|
            stop <= k < sticky_scan(items, i, sticky) ==> (#[trigger] items[k]) is Absolute,
        stop == 0 || (!(items[stop - 1] is Absolute) && !is_sticky(items[stop - 1])),
    decreases i,
{
    if i == 0 {
        0
    } else {
        match items[i - 1] {
            FlowItemView::Absolute(_, _) => lemma_sticky_scan(items, (i - 1) as nat, sticky),
            FlowItemView::Frame { sticky: true, .. } => lemma_sticky_scan(
                items,
                (i - 1) as nat,
                (i - 1) as nat,
            ),
            _ => i,
        }
    }
}

/// A region that is finished with migration does not end with a sticky
/// frame: what stays behind of its items, spacing aside, ends with
/// something that does not stick.
pub proof fn law_migration_leaves_no_sticky_frame(items: Seq<FlowItemView>)
    ensures
        sticky_start(items) <= items.len(),
        !ends_sticky(items.take(sticky_start(items) as int)),
{
    let stop = lemma_sticky_scan(items, items.len(), items.len());
    let start = sticky_start(items) as int;
    let kept = items.take(start);
    if ends_sticky(kept) {
        let j = choose|j: int|
            0 <= j < kept.len() && is_sticky(#[trigger] kept[j]) && forall|k: int|
                j < k < kept.len() ==> (#[trigger] kept[k]) is Absolute;
        assert(kept[j] == items[j]);
        if j >= stop {
            assert(items[j] is Absolute);
        } else {
            if stop - 1 > j {
                assert(kept[stop - 1] is Absolute);
                assert(kept[stop - 1] == items[stop - 1]);
            }
            assert(false);
        }
    }
}

/// An automatic float goes to the farther half of its region. Its middle
/// would lie at `full - remaining + height / 2`, where `remaining` is what
/// is left of the region and `height` the height of the float with its
/// clearance. Where that is above the middle of the region, that is, where
/// `2 * remaining - height > full`, the float goes to the bottom, and to
/// the top otherwise. It is never left without an alignment.
pub proof fn law_float_goes_to_the_farther_half(state: FlowState, item: FlowItemView)
    requires
        item matches FlowItemView::Placed { float, y_align, .. } && float && y_align is Auto,
        state.regions.size.y.is_finite(),
        state.regions.full.is_finite(),
        item->Placed_frame.size.y.plus(item->Placed_clearance).is_finite(),
    ensures
        state.docked(item)->Placed_y_align == Smart::Custom(
            Some(
                if 2 * state.regions.size.y.raw - item->Placed_frame.size.y.plus(
                    item->Placed_clearance,
                ).raw > state.regions.full.raw {
                    FixedAlignment::End
                } else {
                    FixedAlignment::Start
                },
            ),
        ),
        state.docked(item)->Placed_frame.size.y == item->Placed_frame.size.y.plus(
            item->Placed_clearance,
        ),
{
}

/// The margins of the pages of a two-sided run mirror each other: where
/// the margins change sides from one page to the next, the left margin of
/// the one is the right margin of the other.
pub proof fn law_two_sided_margins_mirror(run: PageRunView, page: usize)
    requires
        run.two_sided,
        page < usize::MAX,
        binding_of(run.page, run.styles).swap(page) != binding_of(run.page, run.styles).swap(
            (page + 1) as usize,
        ),
    ensures
        margin_on(run, page).left == margin_on(run, (page + 1) as usize).right,
        margin_on(run, page).right == margin_on(run, (page + 1) as usize).left,
        margin_on(run, page).top == margin_on(run, (page + 1) as usize).top,
        margin_on(run, page).bottom == margin_on(run, (page + 1) as usize).bottom,
{
}

/// The margins change sides from every page to the next.
pub proof fn law_every_page_changes_sides(run: PageRunView, page: usize)
    requires
        page < usize::MAX,
    ensures
        binding_of(run.page, run.styles).swap(page) != binding_of(run.page, run.styles).swap(
            (page + 1) as usize,
        ),
{
}

proof fn lemma_finalized_count(
    engine: Engine,
    run: PageRunView,
    frames: Seq<FrameView>,
    i: nat,
    counter: PageCounter,
)
    requires
        i <= frames.len(),
    ensures
        finalized_from(engine, run, frames, i, counter) matches Ok(done) ==> done.pages.len()
            == frames.len() - i,
    decreases frames.len() - i,
{
    if i < frames.len() {
        match crate::page::page_frame(engine, run, frames[i as int], counter.physical) {
            Ok(frame) => {
                lemma_finalized_count(
                    engine,
                    run,
                    frames,
                    i + 1,
                    counter.visit_spec(frame).step_spec(),
                );
            },
            Err(_) => {},
        }
    }
}

/// A page run has as many pages as its body has frames, and one more where
/// a blank page pads it to the parity of the next run.
pub proof fn law_pages_are_frames_and_padding(engine: Engine, run: PageRunView, counter: PageCounter)
    ensures
        finalized(engine, run, counter) matches Ok(done) ==> done.pages.len() == run.frames.len()
            + if needs_blank(run, counter.physical) {
            1int
        } else {
            0int
        },
{
    lemma_finalized_count(engine, run, crate::page::padded(run, counter.physical), 0, counter);
}

/// Whether a layout of a document came out as the model says.
pub open spec fn came_out(content: Content, styles: Styles, r: Result<Document, LayoutError>) -> bool {
    match document(content, styles) {
        Ok(pages) => r is Ok && r->Ok_0@ == pages,
        Err(e) => r is Err && r->Err_0 == e,
    }
}

/// The layout of a document is a function of content and styles: two
/// layouts of the same content with the same styles fail with the same
/// error, or succeed with the same pages.
pub proof fn law_document_layout_is_a_function(
    content: Content,
    styles: Styles,
    first: Result<Document, LayoutError>,
    second: Result<Document, LayoutError>,
)
    requires
        came_out(content, styles, first),
        came_out(content, styles, second),
    ensures
        first is Ok <==> second is Ok,
        first is Ok ==> first->Ok_0@ == second->Ok_0@,
        first is Err ==> first->Err_0 == second->Err_0,
{
}

proof fn lemma_runs_apart(
    engine: Engine,
    children: Seq<StyledElem>,
    runs: Seq<Result<PageRunView, LayoutError>>,
    i: nat,
    counter: PageCounter,
)
    requires
        runs.len() == children.len(),
        forall|j: int|
            0 <= j < children.len() ==> #[trigger] runs[j] == child_run(
                engine,
                children[j],
                child_at(children, j + 1),
            ),
    ensures
        pages_of_runs(engine, runs, i, counter) == pages_from(engine, children, i, counter),
    decreases children.len() - i,
{
    if i < children.len() {
        match runs[i as int] {
            Ok(run) => match finalized(engine, run, counter) {
                Ok(done) => lemma_runs_apart(engine, children, runs, i + 1, done.counter),
                Err(_) => {},
            },
            Err(_) => {},
        }
    }
}

/// The runs of a document can be laid out apart: where each child of the
/// root is laid out on its own, with the child after it at hand, and the
/// runs are then finalized in their order, the pages, or the error, are
/// those of the document.
pub proof fn law_runs_can_be_laid_out_apart(
    content: Content,
    styles: Styles,
    runs: Seq<Result<PageRunView, LayoutError>>,
)
    requires
        runs.len() == realized(content, styles).len(),
        forall|j: int|
            0 <= j < runs.len() ==> #[trigger] runs[j] == child_run(
                Engine::new(),
                realized(content, styles)[j],
                child_at(realized(content, styles), j + 1),
            ),
    ensures
        pages_of_runs(Engine::new(), runs, 0, PageCounter::new()) == document(content, styles),
{
    lemma_runs_apart(Engine::new(), realized(content, styles), runs, 0, PageCounter::new());
}

/// A footnote that gives up leaves nothing behind: where the entry of the
/// first note that is handled does not fit, the state is as it was before,
/// and so are the notes.
pub proof fn law_giving_up_undoes_everything(
    state: FlowState,
    notes: Seq<Content>,
    k: nat,
    body: Content,
    force: bool,
)
    requires
        state.items.len() <= usize::MAX,
        notes.len() <= usize::MAX,
    ensures
        state.handle_footnote(state.snapshot(notes), notes, k, body, force) matches Ok(
            done,
        ) ==> done.fit || (done.state == state && done.notes == notes),
{
    reveal(FlowState::handle_footnote);
    reveal(FlowState::handle_footnote_def);
    reveal(FlowState::start_footnote);
    reveal(FlowState::start_footnote_def);
    reveal(FlowState::layout_footnote_separator);
    reveal(FlowState::layout_footnote_separator_def);
    reveal(FlowState::end_footnote);
    reveal(FlowState::end_footnote_def);
    let snapshot = state.snapshot(notes);
    match state.handle_footnote(snapshot, notes, k, body, force) {
        Ok(done) => {
            if !done.fit {
                match state.after(state.start_footnote()) {
                    Ok(charged) => {
                        assert(charged.rolled_back(snapshot).items =~= state.items);
                        assert(charged.rolled_back(snapshot) =~= state);
                    },
                    Err(_) => {},
                }
            }
        },
        Err(_) => {},
    }
}

/// The weak spacing that a child of a flow is, if it is weak spacing of a
/// length.
pub open spec fn weak_spacing(child: StyledElem) -> Option<Abs> {
    match *child.child.elem {
        Elem::V(v) => match v.amount {
            Spacing::Rel(rel) => if v.weakness > 0 {
                Some(rel.abs)
            } else {
                None
            },
            Spacing::Fr(_) => None,
        },
        _ => None,
    }
}

proof fn lemma_children_shift(state: FlowState, children: Seq<StyledElem>, i: nat)
    requires
        children.len() >= 1,
    ensures
        state.handle_children(children, i + 1) == state.handle_children(children.skip(1), i),
    decreases children.len() - i,
{
    reveal(FlowState::handle_children);
    reveal(FlowState::handle_children_def);
    reveal(FlowState::handle_child);
    let rest = children.skip(1);
    if i + 1 < children.len() {
        assert(rest[i as int] == children[i as int + 1]);
        match state.after(state.handle_child(children[i as int + 1])) {
            Ok(next) => {
                lemma_children_shift(next, children, i + 1);
            },
            Err(_) => {},
        }
    }
}

/// Weak spacing at the start of a flow can be left out: the flow without
/// it has the same frames. This holds unless the spacing is all that
/// stands beside a single block, which alone in its flow would get the full
/// height.
pub proof fn law_leading_weak_spacing_can_be_left_out(
    engine: Engine,
    styles: Styles,
    span: Span,
    children: Seq<StyledElem>,
    regions: RegionsView,
)
    requires
        children.len() >= 1,
        weak_spacing(children[0]) is Some,
        !(children.len() == 2 && *children[1].child.elem is Block),
    ensures
        FlowState::new(engine, styles, span, children, regions).layout(children) == FlowState::new(
            engine,
            styles,
            span,
            children.skip(1),
            regions,
        ).layout(children.skip(1)),
{
    reveal(FlowState::layout);
    reveal(FlowState::layout_def);
    reveal(FlowState::handle_children);
    reveal(FlowState::handle_children_def);
    reveal(FlowState::handle_child);
    reveal(FlowState::handle_child_def);
    reveal(FlowState::handle_v);
    reveal(FlowState::handle_v_def);
    let rest = children.skip(1);
    let state = FlowState::new(engine, styles, span, children, regions);
    if rest.len() == 1 {
        assert(rest[0] == children[1]);
    }
    assert(state == FlowState::new(engine, styles, span, rest, regions));
    assert forall|v: Abs|
        state.handle_item(FlowItemView::Absolute(v, true)) == Ok::<FlowState, LayoutError>(
            state,
        ) by {
        law_leading_weak_spacing_is_dropped(state, v);
    }
    assert(state.handle_child(children[0]) == Ok::<FlowState, LayoutError>(state));
    lemma_children_shift(state, children, 0);
}

/// Laying out the children from the `j`-th on is laying out those before
/// the `i`-th, and then the others.
proof fn lemma_children_split(state: FlowState, children: Seq<StyledElem>, i: nat, j: nat)
    requires
        j <= i <= children.len(),
    ensures
        state.handle_children(children, j) == match state.handle_children(
            children.take(i as int),
            j,
        ) {
            Ok(reached) => reached.handle_children(children, i),
            Err(e) => Err(e),
        },
    decreases i - j,
{
    reveal(FlowState::handle_children);
    reveal(FlowState::handle_children_def);
    reveal(FlowState::handle_child);
    let before = children.take(i as int);
    if j < i {
        assert(before[j as int] == children[j as int]);
        let step = state.handle_child(children[j as int]);
        if step is Ok && step->Ok_0.follows(state) {
            lemma_children_split(step->Ok_0, children, i, j + 1);
        }
    }
}

/// Laying out the children behind the `i`-th is laying out the children
/// without the `i`-th from there on.
proof fn lemma_children_close_up(state: FlowState, children: Seq<StyledElem>, i: nat, j: nat)
    requires
        i <= j,
        i < children.len(),
    ensures
        state.handle_children(children, j + 1) == state.handle_children(
            children.remove(i as int),
            j,
        ),
    decreases children.len() - j,
{
    reveal(FlowState::handle_children);
    reveal(FlowState::handle_children_def);
    reveal(FlowState::handle_child);
    let rest = children.remove(i as int);
    if j + 1 < children.len() {
        assert(rest[j as int] == children[j as int + 1]);
        let step = state.handle_child(children[j as int + 1]);
        if step is Ok && step->Ok_0.follows(state) {
            lemma_children_close_up(step->Ok_0, children, i, j + 1);
        }
    }
}

/// Weak spacing before which the region holds no frame can be left out,
/// wherever in the flow it stands: at its start, after a tag, after a
/// column break. The flow without it has the same frames.
///
/// The region holds no frame before the `i`-th child where the children
/// before it, laid out alone, leave no frame among the items. As before,
/// this holds unless the spacing is all that stands beside a single block.
/// Between two frames of a region weak spacing takes its length, and
/// cannot be left out.
pub proof fn law_weak_spacing_can_be_left_out(
    engine: Engine,
    styles: Styles,
    span: Span,
    children: Seq<StyledElem>,
    regions: RegionsView,
    i: nat,
)
    requires
        i < children.len(),
        weak_spacing(children[i as int]) is Some,
        children.len() == 2 ==> !(*children[1 - i].child.elem is Block),
        FlowState::new(engine, styles, span, children, regions).handle_children(
            children.take(i as int),
            0,
        ) matches Ok(reached) ==> !has_frame(reached.items),
    ensures
        FlowState::new(engine, styles, span, children, regions).layout(children) == FlowState::new(
            engine,
            styles,
            span,
            children.remove(i as int),
            regions,
        ).layout(children.remove(i as int)),
{
    reveal(FlowState::layout);
    reveal(FlowState::layout_def);
    reveal(FlowState::handle_children);
    reveal(FlowState::handle_children_def);
    reveal(FlowState::handle_child);
    reveal(FlowState::handle_child_def);
    reveal(FlowState::handle_v);
    reveal(FlowState::handle_v_def);
    let rest = children.remove(i as int);
    let before = children.take(i as int);
    let state = FlowState::new(engine, styles, span, children, regions);
    if rest.len() == 1 {
        assert(rest[0] == children[1 - i]);
    }
    assert(state == FlowState::new(engine, styles, span, rest, regions));
    assert(rest.take(i as int) =~= before);
    lemma_children_split(state, children, i, 0);
    lemma_children_split(state, rest, i, 0);
    let reached = state.handle_children(before, 0);
    if reached is Ok {
        let reached = reached->Ok_0;
        assert forall|v: Abs|
            reached.handle_item(FlowItemView::Absolute(v, true)) == Ok::<FlowState, LayoutError>(
                reached,
            ) by {
            law_leading_weak_spacing_is_dropped(reached, v);
        }
        assert(reached.handle_child(children[i as int]) == Ok::<FlowState, LayoutError>(
            reached,
        ));
        assert(reached.handle_children(children, i) == reached.handle_children(children, i + 1));
        lemma_children_close_up(reached, children, i, i);
    }
}

/// The item that a line of a paragraph becomes.
pub open spec fn line_item(frame: FrameView, styles: Styles) -> FlowItemView {
    FlowItemView::Frame { frame, align: styles.align, sticky: false, movable: true }
}

/// Moving the items of a frame by nothing leaves the frame as it is.
proof fn lemma_translate_by_nothing(frame: FrameView)
    ensures
        frame.translate(Point::zero()) == frame,
        frame.with_size(frame.size) == frame,
{
    assert(frame.translate(Point::zero()).items =~= frame.items);
}

/// A frame that fits, or meets the last region, is taken into the region
/// as it is where the flow is not the root.
proof fn lemma_frame_is_taken(state: FlowState, item: FlowItemView)
    requires
        item is Frame,
        !state.root,
        state.regions.size.y.fits(item->Frame_frame.size.y) || state.regions.in_last(),
    ensures
        state.handle_item(item) == Ok::<FlowState, LayoutError>(
            state.spend(item->Frame_frame.size.y).push(item),
        ),
{
    reveal(FlowState::handle_item);
    reveal(FlowState::handle_item_def);
    reveal(FlowState::make_room);
    reveal(FlowState::make_room_def);
    reveal(FlowState::take_frame);
    reveal(FlowState::take_frame_def);
}

/// A paragraph of one line that fits is one frame of the flow.
proof fn lemma_one_line(state: FlowState, par: ParElem, styles: Styles)
    requires
        par.children@.len() == 1,
        !state.root,
        !state.last_was_par,
        !state.regions.expand.x,
        state.pending_tags.len() == 0,
        state.regions.in_last(),
    ensures
        state.handle_par(par, styles) == Ok::<FlowState, LayoutError>(
            FlowState {
                last_was_par: true,
                ..state.spend(par.children@[0]@.size.y).push(line_item(par.children@[0]@, styles))
            },
        ),
{
    reveal(FlowState::handle_par);
    reveal(FlowState::handle_par_def);
    reveal(FlowState::migrate_until_fits);
    reveal(FlowState::migrate_until_fits_def);
    reveal(FlowState::place_lines);
    reveal(FlowState::place_lines_def);
    reveal(FlowState::place_line);
    reveal(FlowState::place_line_def);
    let frame = par.children@[0]@;
    let frames = lines_of(par, false, state.regions.base(), false);
    lemma_translate_by_nothing(frame);
    assert(frames =~= seq![frame]);
    let lines = Lines::new(frames, par, styles);
    let item = line_item(frame, styles);
    lemma_frame_is_taken(state, item);
    let next = state.spend(frame.size.y).push(item);
    assert(state.place_line(lines, 0) == Ok::<FlowState, LayoutError>(next));
    assert(state.place_lines(lines, 0) == next.place_lines(lines, 1));
    assert(next.place_lines(lines, 1) == Ok::<FlowState, LayoutError>(next));
}

/// A region that holds one frame which fills it has that frame at its
/// origin.
proof fn lemma_one_frame_region(state: FlowState, item: FlowItemView)
    requires
        item is Frame,
        state.items == seq![item],
        state.pending_tags.len() == 0,
        state.initial == item->Frame_frame.size,
        !state.has_footnotes,
        !state.expand.x,
        !state.expand.y,
        state.initial.x.is_finite(),
        state.initial.y.is_finite(),
    ensures
        state.region_frame(true) == FrameView::soft(state.initial).push_frame(
            Point::zero(),
            item->Frame_frame,
        ),
{
    reveal(FlowState::region_frame);
    reveal_with_fuel(trim_weak, 2);
    reveal_with_fuel(Measure::of, 2);
    reveal_with_fuel(Cursor::after, 2);
    let items = state.items;
    assert(items.drop_last() =~= Seq::<FlowItemView>::empty());
    assert(items.last() == item);
    assert(trim_weak(items) == items);
    let gap = state.styles.footnote_gap;
    let measure = Measure::of(items, gap);
    assert(measure == Measure::start().with(item, gap));
    let plan = plan_of(items, state.initial, state.expand, state.has_footnotes, gap);
    assert(plan.size == state.initial);
    let start = Cursor::start(plan, measure.float_top);
    assert(Cursor::after(start, items, plan) == start.with(item, plan));
}

/// A flow that has laid out one frame which fills its only region has one
/// frame, with that frame at its origin.
proof fn lemma_one_frame_flow(state: FlowState, item: FlowItemView)
    requires
        item is Frame,
        state.items == seq![item],
        state.pending_tags.len() == 0,
        state.pending_floats.len() == 0,
        state.finished.len() == 0,
        state.initial == item->Frame_frame.size,
        state.regions.size.x == state.initial.x,
        !state.has_footnotes,
        !state.expand.x,
        !state.expand.y,
        state.initial.x.is_finite(),
        state.initial.y.is_finite(),
    ensures
        state.finish() == Ok::<Seq<FrameView>, LayoutError>(
            seq![FrameView::soft(state.initial).push_frame(Point::zero(), item->Frame_frame)],
        ),
{
    reveal(FlowState::finish);
    reveal(FlowState::finish_def);
    reveal(FlowState::finish_region);
    reveal(FlowState::finish_region_def);
    reveal(FlowState::feed);
    reveal(FlowState::feed_def);
    reveal(FlowState::finish_items);
    reveal(FlowState::finish_items_def);
    lemma_one_frame_region(state, item);
    let next = state.entered(true);
    assert(state.finish_region(true) == Ok::<FlowState, LayoutError>(next));
    assert(next.finish_items() == Ok::<FlowState, LayoutError>(next));
    assert(next.finished =~= seq![state.region_frame(true)]);
}

/// Laying out a frame again is a no-op on the frame: a frame of finite
/// size that is laid out alone, as the one line of a paragraph, into a
/// region of its own size, comes back as it is, at the origin of a frame of
/// its size.
pub proof fn law_frame_comes_back(engine: Engine, content: Content, styles: Styles, par: ParElem)
    requires
        *content.elem == Elem::Par(par),
        par.children@.len() == 1,
        engine.route.depth < MAX_LAYOUT_DEPTH,
        par.children@[0]@.size.x.is_finite(),
        par.children@[0]@.size.y.is_finite(),
    ensures
        layout_fragment(
            engine,
            content,
            styles,
            RegionsView::single(
                Region::new(par.children@[0]@.size, Axes { x: false, y: false }),
            ),
        ) == Ok::<Seq<FrameView>, LayoutError>(
            seq![
                FrameView::soft(par.children@[0]@.size).push_frame(
                    Point::zero(),
                    par.children@[0]@,
                ),
            ],
        ),
{
    reveal(layout_fragment);
    reveal(layout_fragment_def);
    reveal(FlowState::layout);
    reveal(FlowState::layout_def);
    reveal(FlowState::handle_children);
    reveal(FlowState::handle_children_def);
    reveal(FlowState::handle_child);
    reveal(FlowState::handle_child_def);
    reveal(FlowState::handle_par);
    reveal(FlowState::finish);
    let frame = par.children@[0]@;
    let regions = RegionsView::single(Region::new(frame.size, Axes { x: false, y: false }));
    let children = realized(content, styles);
    assert(children =~= seq![StyledElem { child: content, styles }]);
    let inner = Engine { route: engine.route.extend() };
    let state = FlowState::new(inner, styles, content.span, children, regions);
    lemma_one_line(state, par, styles);
    let item = line_item(frame, styles);
    let laid = FlowState { last_was_par: true, ..state.spend(frame.size.y).push(item) };
    assert(state.handle_child(children[0]) == Ok::<FlowState, LayoutError>(laid));
    assert(state.handle_children(children, 0) == laid.handle_children(children, 1));
    assert(laid.handle_children(children, 1) == Ok::<FlowState, LayoutError>(laid));
    assert(laid.items =~= seq![item]);
    lemma_one_frame_flow(laid, item);
}

/// The frame of a region can be laid out again. The frame that is finished
/// for a region of finite size is of finite size itself; so, laid out alone
/// as the one line of a paragraph into a region of its own size, it comes
/// back as it is, at the origin of a frame of its size.
pub proof fn law_region_frame_comes_back(
    state: FlowState,
    force: bool,
    engine: Engine,
    content: Content,
    styles: Styles,
    par: ParElem,
)
    requires
        state.initial.x.is_finite(),
        state.initial.y.is_finite(),
        *content.elem == Elem::Par(par),
        par.children@.len() == 1,
        par.children@[0]@ == state.region_frame(force),
        engine.route.depth < MAX_LAYOUT_DEPTH,
    ensures
        state.region_frame(force).size.x.is_finite(),
        state.region_frame(force).size.y.is_finite(),
        layout_fragment(
            engine,
            content,
            styles,
            RegionsView::single(
                Region::new(state.region_frame(force).size, Axes { x: false, y: false }),
            ),
        ) == Ok::<Seq<FrameView>, LayoutError>(
            seq![
                FrameView::soft(state.region_frame(force).size).push_frame(
                    Point::zero(),
                    state.region_frame(force),
                ),
            ],
        ),
{
    reveal(FlowState::region_frame);
    let items = trim_weak(state.items);
    let gap = state.styles.footnote_gap;
    let plan = plan_of(items, state.initial, state.expand, state.has_footnotes, gap);
    let start = Cursor::start(plan, Measure::of(items, gap).float_top);
    law_placing_keeps_the_size(start, items, plan);
    law_frame_comes_back(engine, content, styles, par);
}

} // verus!
