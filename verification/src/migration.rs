//! What migration carries into the next region.

use crate::content::Styles;
use crate::engine::LayoutError;
use crate::frame::FrameView;
use crate::geom::Abs;
use crate::items::{has_frame, FlowItemView};
use crate::laws::{ends_sticky, is_sticky, law_migration_leaves_no_sticky_frame};
use crate::model::{lines_of, sticky_scan, sticky_start, FlowState, Lines};
use crate::pace::loops::{lemma_feed, lemma_migrate_until_fits, lemma_place_lines};
use crate::par::ParElem;
use vstd::prelude::*;

verus! {

/// How much of the region an item takes that is a frame or spacing of a
/// given length.
pub open spec fn height_of(item: FlowItemView) -> Abs {
    match item {
        FlowItemView::Frame { frame, .. } => frame.size.y,
        FlowItemView::Absolute(v, _) => v,
        _ => Abs::zero(),
    }
}

impl FlowState {
    /// The state with the items from the `i`-th on in the region, one after
    /// the other, each taking its height from what is left.
    pub open spec fn carrying(self, items: Seq<FlowItemView>, i: nat) -> FlowState
        decreases items.len() - i,
    {
        if i >= items.len() {
            self
        } else {
            self.spend(height_of(items[i as int])).push(items[i as int]).carrying(items, i + 1)
        }
    }

    /// Whether the region has room for the items from the `i`-th on: each
    /// frame fits into what is left when its turn comes, unless the region
    /// is the last one.
    pub open spec fn has_room_for(self, items: Seq<FlowItemView>, i: nat) -> bool
        decreases items.len() - i,
    {
        i >= items.len() || ({
            &&& items[i as int] matches FlowItemView::Frame { frame, .. } ==> self.regions.size.y.fits(
                frame.size.y,
            ) || self.regions.in_last()
            &&& self.spend(height_of(items[i as int])).push(items[i as int]).has_room_for(
                items,
                i + 1,
            )
        })
    }

    /// What stays behind when the region is finished with migration: the
    /// state with the items before the sticky frames at the end.
    pub open spec fn staying(self) -> FlowState {
        FlowState { items: self.items.take(sticky_start(self.items) as int), ..self }
    }

    /// The frame that migration finishes for the region: that of the items
    /// that stay behind, or an empty frame of the region's size where they
    /// are all out of the flow.
    pub open spec fn left_behind(self) -> FrameView {
        if self.staying().skips_region(false) {
            FrameView::soft(self.initial)
        } else {
            self.staying().region_frame(false)
        }
    }

    /// What migration carries along: the sticky frames at the end of the
    /// region, with the spacing between and behind them.
    pub open spec fn carried(self) -> Seq<FlowItemView> {
        self.items.skip(sticky_start(self.items) as int)
    }
}

/// Whether an item is one that a flow takes as it is where it fits:
/// spacing of a given length, or a frame whose footnotes the flow does not
/// place with it.
pub open spec fn is_taken_plainly(root: bool, item: FlowItemView) -> bool {
    match item {
        FlowItemView::Absolute(_, _) => true,
        FlowItemView::Frame { movable, .. } => !(root && movable),
        _ => false,
    }
}

/// What migration carries along is sticky frames and spacing, and begins
/// with a sticky frame.
pub proof fn law_migration_carries_sticky_frames_and_spacing(items: Seq<FlowItemView>)
    ensures
        sticky_start(items) <= items.len(),
        forall|k: int|
            sticky_start(items) <= k < items.len() ==> (#[trigger] items[k]) is Absolute
                || is_sticky(items[k]),
        sticky_start(items) < items.len() ==> is_sticky(items[sticky_start(items) as int]),
{
    lemma_sticky_run(items, items.len(), items.len());
}

proof fn lemma_sticky_run(items: Seq<FlowItemView>, i: nat, sticky: nat)
    requires
        i <= sticky <= items.len(),
        forall|k: int| i <= k < items.len() ==> (#[trigger] items[k]) is Absolute || is_sticky(items[k]),
        sticky < items.len() ==> is_sticky(items[sticky as int]),
    ensures
        sticky_scan(items, i, sticky) <= items.len(),
        forall|k: int|
            sticky_scan(items, i, sticky) <= k < items.len() ==> (#[trigger] items[k]) is Absolute
                || is_sticky(items[k]),
        sticky_scan(items, i, sticky) < items.len() ==> is_sticky(
            items[sticky_scan(items, i, sticky) as int],
        ),
    decreases i,
{
    if i > 0 {
        match items[i - 1] {
            FlowItemView::Absolute(_, _) => lemma_sticky_run(items, (i - 1) as nat, sticky),
            FlowItemView::Frame { sticky: true, .. } => lemma_sticky_run(
                items,
                (i - 1) as nat,
                (i - 1) as nat,
            ),
            _ => {},
        }
    }
}

/// Items that the flow takes as they are, and for which the region has
/// room, are handled by putting them into the region one after the other.
proof fn lemma_feed_carries(state: FlowState, items: Seq<FlowItemView>, i: nat)
    requires
        i <= items.len(),
        forall|k: int| i <= k < items.len() ==> is_taken_plainly(state.root, #[trigger] items[k]),
        i < items.len() ==> has_frame(state.items) || items[i as int] is Frame,
        state.has_room_for(items, i),
    ensures
        state.feed(items, i) == Ok::<FlowState, LayoutError>(
            state.carrying(items, i),
        ),
        state.carrying(items, i).items == state.items + items.skip(i as int),
        state.carrying(items, i).finished == state.finished,
    decreases items.len() - i,
{
    reveal(FlowState::feed);
    reveal(FlowState::feed_def);
    if i >= items.len() {
        assert(state.items + items.skip(i as int) =~= state.items);
    } else {
        reveal(FlowState::handle_item);
        reveal(FlowState::handle_item_def);
        reveal(FlowState::make_room);
        reveal(FlowState::make_room_def);
        reveal(FlowState::take_frame);
        reveal(FlowState::take_frame_def);
        let item = items[i as int];
        let next = state.spend(height_of(item)).push(item);
        assert(state.follows(state));
        assert(next.follows(state));
        assert(state.handle_item(item) == Ok::<FlowState, LayoutError>(next));
        assert(next.items[next.items.len() - 1] == item);
        if item is Frame {
            assert(has_frame(next.items));
        } else {
            let j = choose|j: int| 0 <= j < state.items.len() && (#[trigger] state.items[j]) is Frame;
            assert(next.items[j] is Frame);
        }
        lemma_feed_carries(next, items, i + 1);
        assert(next.items + items.skip(i as int + 1) =~= state.items + items.skip(i as int));
    }
}

/// A region that is finished with migration takes its sticky frames along,
/// in their order. Where no float is pending and the region that is
/// entered has room for what is carried, exactly one frame is finished,
/// that of the items that stay behind, and the region that is entered
/// holds the carried items and nothing else. Said of frames whose footnotes
/// the flow does not place with them.
pub proof fn law_migration_carries_in_order(state: FlowState)
    requires
        state.pending_floats.len() == 0,
        state.finished.len() < usize::MAX,
        !state.staying().skips_region(false),
        state.staying().infinite_axis() is None,
        forall|k: int|
            0 <= k < state.carried().len() ==> is_taken_plainly(
                state.root,
                #[trigger] state.carried()[k],
            ),
        state.staying().entered(false).has_room_for(state.carried(), 0),
    ensures
        state.finish_region_with_migration() matches Ok(migrated) && {
            &&& migrated.state == state.staying().entered(false).carrying(state.carried(), 0)
            &&& migrated.state.items == state.carried()
            &&& migrated.state.finished == state.finished.push(
                state.staying().region_frame(false),
            )
            &&& migrated.in_last == state.regions.next().in_last()
        },
{
    reveal(FlowState::finish_region_with_migration);
    reveal(FlowState::finish_region_with_migration_def);
    reveal(FlowState::finish_region);
    reveal(FlowState::finish_region_def);
    reveal(FlowState::feed);
    reveal(FlowState::feed_def);
    law_migration_carries_sticky_frames_and_spacing(state.items);
    let kept = state.staying();
    let carry = state.carried();
    let fresh = kept.entered(false);
    assert(fresh.passes(kept));
    assert(fresh.passes(state));
    assert(kept.finish_region(false) == Ok::<FlowState, LayoutError>(fresh));
    if carry.len() > 0 {
        assert(carry[0] == state.items[sticky_start(state.items) as int]);
    }
    lemma_feed_carries(fresh, carry, 0);
    assert(fresh.items + carry.skip(0) =~= carry);
}

/// Migration finishes the region without its sticky frames: the frame
/// that is finished for the region is that of the items that stay behind.
pub proof fn law_migration_finishes_what_stays(state: FlowState)
    ensures
        state.finish_region_with_migration() matches Ok(migrated) ==> {
            &&& migrated.state.finished.len() > state.finished.len()
            &&& migrated.state.finished[state.finished.len() as int] == state.left_behind()
        },
{
    reveal(FlowState::finish_region_with_migration);
    reveal(FlowState::finish_region_with_migration_def);
    reveal(FlowState::finish_region);
    reveal(FlowState::finish_region_def);
    reveal(FlowState::feed);
    let kept = state.staying();
    let carry = state.carried();
    let step = kept.finish_region(false);
    if step is Ok && step->Ok_0.passes(state) {
        let fresh = step->Ok_0;
        if !kept.skips_region(false) {
            lemma_feed(kept.entered(false), kept.pending_floats, 0);
        }
        assert(fresh.finished.len() > state.finished.len());
        assert(fresh.finished[state.finished.len() as int] == state.left_behind());
        lemma_feed(fresh, carry, 0);
    }
}

/// A paragraph takes the sticky frames before it along. Where the first
/// line of a paragraph does not fit into a region that is not the last,
/// the region is finished without the sticky frames at its end: its frame
/// is that of the items that stay behind, which do not end with a sticky
/// frame.
pub proof fn law_paragraph_takes_sticky_frames_along(state: FlowState, par: ParElem, styles: Styles)
    requires
        par.children@.len() > 0,
        !state.regions.in_last(),
        !state.regions.size.y.fits(
            lines_of(par, state.last_was_par, state.regions.base(), state.regions.expand.x)[0].size.y,
        ),
    ensures
        !ends_sticky(state.staying().items),
        state.handle_par(par, styles) matches Ok(next) ==> {
            &&& next.finished.len() > state.finished.len()
            &&& next.finished[state.finished.len() as int] == state.left_behind()
        },
{
    reveal(FlowState::handle_par);
    reveal(FlowState::handle_par_def);
    reveal(FlowState::migrate_until_fits);
    reveal(FlowState::migrate_until_fits_def);
    reveal(FlowState::finish_region_with_migration);
    reveal(FlowState::place_lines);
    law_migration_leaves_no_sticky_frame(state.items);
    let frames = lines_of(par, state.last_was_par, state.regions.base(), state.regions.expand.x);
    let height = frames[0].size.y;
    let step = state.finish_region_with_migration();
    law_migration_finishes_what_stays(state);
    if step is Ok && step->Ok_0.state.passes(state) {
        let migrated = step->Ok_0;
        let settled = if migrated.in_last {
            Ok(migrated.state)
        } else {
            migrated.state.migrate_until_fits(height)
        };
        assert(state.migrate_until_fits(height) == settled);
        if !migrated.in_last {
            lemma_migrate_until_fits(migrated.state, height);
        }
        if settled is Ok && settled->Ok_0.follows(state) {
            let room = settled->Ok_0;
            assert(room.keeps_pace(migrated.state));
            lemma_place_lines(room, Lines::new(frames, par, styles), 0);
        }
    }
}

} // verus!
