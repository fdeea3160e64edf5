//! Frames and regions keep pace: every step of a flow enters one region
//! for every frame that it finishes, finishes no frame that is larger than
//! its region, and leaves the frames that were finished before as they are.

use crate::content::{
    BlockElem, Content, Elem, PlaceElem, Span, StyledElem, Styles, VElem,
};
use crate::engine::LayoutError;
use crate::frame::FrameView;
use crate::geom::{Abs, Axes, FixedAlignment, Size};
use crate::items::FlowItemView;
use crate::laws::law_frame_fits_region;
use crate::model::{
    collect_footnotes,
    layout_block,
    layout_fragment,
    layout_placed,
    lines_of,
    sticky_start,
    FlowState,
    Lines,
    Snapshot,
};
use crate::par::ParElem;
use crate::pace::loops::{
    law_children_keep_pace,
    lemma_feed,
    lemma_finish_backlog,
    lemma_finish_items,
    lemma_flush_floats,
    lemma_footnotes_from,
    lemma_make_room,
    lemma_migrate_until_fits,
    lemma_place_block,
    lemma_place_entry,
    lemma_place_lines,
};
use vstd::prelude::*;

pub mod loops;

verus! {

impl FlowState {
    /// Whether this state has kept pace since `prev`: for every frame that
    /// was finished since then, one region was entered. So the backlog is
    /// shorter than that of `prev` by as many heights as frames were
    /// finished, as far as it goes, and the height that repeats is the
    /// same. The frames that were finished then are still there, as they
    /// were; what is left of the backlog is its end; and every frame that
    /// was finished since is no larger than the region that it was
    /// finished for, which is how large the region was when the flow
    /// entered it.
    pub open spec fn keeps_pace(self, prev: FlowState) -> bool {
        let frames = self.finished.len() - prev.finished.len();
        &&& frames >= 0
        &&& self.regions.last == prev.regions.last
        &&& self.regions.backlog.len() == if frames <= prev.regions.backlog.len() {
            prev.regions.backlog.len() - frames
        } else {
            0
        }
        &&& forall|i: int|
            0 <= i < prev.finished.len() ==> #[trigger] self.finished[i] == prev.finished[i]
        &&& forall|j: int|
            0 <= j < self.regions.backlog.len() ==> #[trigger] self.regions.backlog[j]
                == prev.regions.backlog[j + frames]
        &&& self.regions.size.x == prev.regions.size.x
        &&& prev.region_size(frames) matches Some(size) ==> self.initial == size
        &&& forall|i: int|
            prev.finished.len() <= i < self.finished.len() ==> (prev.region_size(
                i - prev.finished.len(),
            ) matches Some(size) ==> size.x.fits((#[trigger] self.finished[i]).size.x)
                && size.y.fits(self.finished[i].size.y))
    }

    /// The size of the region `k` steps after the current one, as the flow
    /// finds it when it enters it; nothing where the regions do not go
    /// that far.
    pub open spec fn region_size(self, k: int) -> Option<Size> {
        if k <= 0 {
            Some(self.initial)
        } else {
            self.regions.at(k)
        }
    }
}

/// A state that enters the next region with one more frame has kept pace.
pub(crate) proof fn lemma_next_region(state: FlowState)
    ensures
        state.skipped().keeps_pace(state),
        forall|force: bool| (#[trigger] state.entered(force)).keeps_pace(state),
{
    assert forall|force: bool| (#[trigger] state.entered(force)).keeps_pace(state) by {
        law_frame_fits_region(state, force);
    }
}

/// Keeping pace goes on: a state that has kept pace since a state that has
/// kept pace has kept pace since the first.
pub(crate) proof fn lemma_pace_goes_on(first: FlowState, second: FlowState, third: FlowState)
    requires
        second.keeps_pace(first),
        third.keeps_pace(second),
    ensures
        third.keeps_pace(first),
{
}

/// Finishing a region enters one region for every frame that is finished.
pub proof fn law_finishing_keeps_pace(state: FlowState, force: bool)
    ensures
        state.finish_region(force) matches Ok(next) ==> next.keeps_pace(state),
    decreases state.engine.route.depth_left() + 1, state.budget(), 1nat, 0nat, 0nat,
{
    reveal(FlowState::finish_region);
    reveal(FlowState::finish_region_def);
    reveal(FlowState::feed);

    if state.skips_region(force) {
        lemma_next_region(state);
    } else if state.finish_region(force) is Ok {
        let next = state.entered(force);
        lemma_next_region(state);
        lemma_feed(next, state.pending_floats, 0);
        match next.feed(state.pending_floats, 0) {
            Ok(fed) => lemma_pace_goes_on(state, next, fed),
            Err(_) => {},
        }
    }
}

/// The step `move_on` keeps pace.
pub(crate) proof fn lemma_move_on(state: FlowState, notes: Seq<Content>, height: Abs)
    ensures
        state.move_on(notes, height) matches Ok(next) ==> next.keeps_pace(state),
    decreases state.engine.route.depth_left() + 1, state.budget(), 5nat, 0nat, 0nat,
{
    reveal(FlowState::move_on);
    reveal(FlowState::move_on_def);
    reveal(FlowState::finish_region);

    match state.after(state.pop().finish_region(false)) {
        Ok(fresh) => {
            law_finishing_keeps_pace(state.pop(), false);
            let again = fresh.push_back(state.items).spend(height);
            lemma_handle_footnotes(again, notes, true, true);
            match again.handle_footnotes(notes, true, true) {
                Ok(forced) => lemma_pace_goes_on(state, fresh, forced.state),
                Err(_) => {},
            }
        },
        Err(_) => {},
    }
}

/// The step `take_frame` keeps pace.
pub(crate) proof fn lemma_take_frame(state: FlowState, item: FlowItemView)
    ensures
        state.take_frame(item) matches Ok(next) ==> next.keeps_pace(state),
    decreases state.engine.route.depth_left() + 1, state.budget(), 6nat, 0nat, 0nat,
{
    reveal(FlowState::take_frame);
    reveal(FlowState::take_frame_def);
    reveal(FlowState::move_on);

    let frame = item->Frame_frame;
    let with = state.spend(frame.size.y).push(item);
    if state.root && item->Frame_movable {
        let notes = collect_footnotes(Seq::empty(), frame);
        lemma_handle_footnotes(with, notes, true, state.regions.in_last());
        match state.after_notes(with.handle_footnotes(notes, true, state.regions.in_last())) {
            Ok(done) => {
                if !done.fit {
                    lemma_move_on(done.state, done.notes, frame.size.y);
                    match done.state.move_on(done.notes, frame.size.y) {
                        Ok(moved) => lemma_pace_goes_on(state, done.state, moved),
                        Err(_) => {},
                    }
                }
            },
            Err(_) => {},
        }
    }
}

/// The step `take_float` keeps pace.
pub(crate) proof fn lemma_take_float(state: FlowState, item: FlowItemView)
    ensures
        state.take_float(item) matches Ok(next) ==> next.keeps_pace(state),
    decreases state.engine.route.depth_left() + 1, state.budget(), 6nat, 0nat, 0nat,
{
    reveal(FlowState::take_float);
    reveal(FlowState::take_float_def);
    reveal(FlowState::try_handle_footnotes);

    let docked = state.docked(item);
    let spent = state.spend(docked->Placed_frame.size.y);
    if state.root {
        lemma_try_handle_footnotes(spent, collect_footnotes(Seq::empty(), docked->Placed_frame));
    }
}

/// Handling an item enters one region for every frame that is finished.
pub proof fn law_items_keep_pace(state: FlowState, item: FlowItemView)
    ensures
        state.handle_item(item) matches Ok(next) ==> next.keeps_pace(state),
    decreases state.engine.route.depth_left() + 1, state.budget(), 7nat, 0nat, 0nat,
{
    reveal(FlowState::handle_item);
    reveal(FlowState::handle_item_def);
    reveal(FlowState::make_room);
    reveal(FlowState::take_frame);
    reveal(FlowState::take_float);

    match item {
        FlowItemView::Frame { frame, .. } => {
            match state.after(state.make_room(frame.size.y)) {
                Ok(roomy) => {
                    lemma_make_room(state, frame.size.y);
                    lemma_take_frame(roomy, item);
                    match roomy.take_frame(item) {
                        Ok(taken) => lemma_pace_goes_on(state, roomy, taken),
                        Err(_) => {},
                    }
                },
                Err(_) => {},
            }
        },
        FlowItemView::Placed { frame, float, clearance, .. } => {
            if float && !state.must_queue(frame, clearance) {
                lemma_take_float(state, item);
            }
        },
        _ => {},
    }
}

/// The step `try_handle_footnotes` keeps pace.
pub(crate) proof fn lemma_try_handle_footnotes(state: FlowState, notes: Seq<Content>)
    ensures
        state.try_handle_footnotes(notes) matches Ok(next) ==> next.keeps_pace(state),
    decreases state.engine.route.depth_left() + 1, state.budget(), 5nat, 0nat, 0nat,
{
    reveal(FlowState::try_handle_footnotes);
    reveal(FlowState::try_handle_footnotes_def);
    reveal(FlowState::finish_region);

    if state.root {
        lemma_handle_footnotes(state, notes, false, state.regions.in_last());
        match state.after_notes(state.handle_footnotes(notes, false, state.regions.in_last())) {
            Ok(done) => {
                if !done.fit {
                    match state.after(done.state.finish_region(false)) {
                        Ok(fresh) => {
                            law_finishing_keeps_pace(done.state, false);
                            lemma_pace_goes_on(state, done.state, fresh);
                            lemma_handle_footnotes(fresh, done.notes, false, true);
                            match fresh.handle_footnotes(done.notes, false, true) {
                                Ok(forced) => lemma_pace_goes_on(state, fresh, forced.state),
                                Err(_) => {},
                            }
                        },
                        Err(_) => {},
                    }
                }
            },
            Err(_) => {},
        }
    }
}

/// The step `layout_footnote_separator` keeps pace.
pub(crate) proof fn lemma_layout_footnote_separator(state: FlowState)
    ensures
        state.layout_footnote_separator() matches Ok(next) ==> next.keeps_pace(state),
    decreases state.engine.route.depth_left() + 1, state.budget(), 0nat, 0nat, 0nat,
{
    reveal(FlowState::layout_footnote_separator);
    reveal(FlowState::layout_footnote_separator_def);

}

/// The step `handle_footnotes` keeps pace.
pub(crate) proof fn lemma_handle_footnotes(state: FlowState, notes: Seq<Content>, movable: bool, force: bool)
    ensures
        state.handle_footnotes(notes, movable, force) matches Ok(next) ==> next.state.keeps_pace(state),
    decreases state.engine.route.depth_left() + 1, state.budget(), 4nat, usize::MAX + 1, 0nat,
{

    reveal(FlowState::footnotes_from);
    lemma_footnotes_from(state, state.snapshot(notes), notes, 0, force);
}

/// The step `handle_footnote` keeps pace.
pub(crate) proof fn lemma_handle_footnote(state: FlowState, snapshot: Snapshot, notes: Seq<Content>, k: nat, body: Content, force: bool)
    requires
        snapshot.size.x == state.regions.size.x,
    ensures
        state.handle_footnote(snapshot, notes, k, body, force) matches Ok(next) ==> next.state.keeps_pace(state),
    decreases state.engine.route.depth_left() + 1, state.budget(), 3nat, 1nat, 0nat,
{
    reveal(FlowState::handle_footnote);
    reveal(FlowState::handle_footnote_def);
    reveal(FlowState::start_footnote);
    reveal(FlowState::end_footnote);

    let step = state.start_footnote();
    if step is Ok && step->Ok_0.follows(state) {
        let charged = step->Ok_0;
        assert(state.after(step) == Ok::<FlowState, LayoutError>(charged));
        if notes[k as int].location is Some {
            let laid = layout_fragment(
                state.engine,
                body,
                state.styles,
                charged.regions.with_root(false),
            );
            if laid is Ok {
                let frames = laid->Ok_0;
                let end = charged.end_footnote(snapshot, notes, k, frames, force);
                assert(state.handle_footnote(snapshot, notes, k, body, force) == end);
                lemma_start_footnote(state);
                lemma_end_footnote(charged, snapshot, notes, k, frames, force);
                if end is Ok {
                    lemma_pace_goes_on(state, charged, end->Ok_0.state);
                }
            }
        }
    }
}

/// The step `start_footnote` keeps pace.
pub(crate) proof fn lemma_start_footnote(state: FlowState)
    ensures
        state.start_footnote() matches Ok(next) ==> next.keeps_pace(state),
    decreases state.engine.route.depth_left() + 1, state.budget(), 3nat, 0nat, 0nat,
{
    reveal(FlowState::start_footnote);
    reveal(FlowState::start_footnote_def);
    reveal(FlowState::layout_footnote_separator);

    if !state.has_footnotes {
        lemma_layout_footnote_separator(state);
    }
}

/// The step `end_footnote` keeps pace.
pub(crate) proof fn lemma_end_footnote(state: FlowState, snapshot: Snapshot, notes: Seq<Content>, k: nat, frames: Seq<FrameView>, force: bool)
    requires
        snapshot.size.x == state.regions.size.x,
    ensures
        state.end_footnote(snapshot, notes, k, frames, force) matches Ok(next) ==> next.state.keeps_pace(state),
    decreases state.engine.route.depth_left() + 1, state.budget(), 3nat, 0nat, 0nat,
{
    reveal(FlowState::end_footnote);
    reveal(FlowState::end_footnote_def);
    reveal(FlowState::place_entry);

    if !FlowState::gives_up(frames, k, force) {
        lemma_place_entry(state, notes, frames, 0);
    }
}

/// The step `continue_entry` keeps pace.
pub(crate) proof fn lemma_continue_entry(state: FlowState)
    ensures
        state.continue_entry() matches Ok(next) ==> next.keeps_pace(state),
    decreases state.engine.route.depth_left() + 1, state.budget(), 2nat, 0nat, 0nat,
{
    reveal(FlowState::continue_entry);
    reveal(FlowState::continue_entry_def);
    reveal(FlowState::finish_region);
    reveal(FlowState::layout_footnote_separator);

    match state.after(state.finish_region(false)) {
        Ok(fresh) => {
            law_finishing_keeps_pace(state, false);
            lemma_layout_footnote_separator(fresh);
            match fresh.after(fresh.layout_footnote_separator()) {
                Ok(separated) => lemma_pace_goes_on(state, fresh, separated),
                Err(_) => {},
            }
        },
        Err(_) => {},
    }
}

/// The step `finish_region_with_migration` keeps pace.
pub(crate) proof fn lemma_finish_region_with_migration(state: FlowState)
    ensures
        state.finish_region_with_migration() matches Ok(next) ==> next.state.keeps_pace(state),
    decreases state.engine.route.depth_left() + 1, state.budget(), 9nat, 0nat, 0nat,
{
    reveal(FlowState::finish_region_with_migration);
    reveal(FlowState::finish_region_with_migration_def);
    reveal(FlowState::finish_region);
    reveal(FlowState::feed);

    let start = sticky_start(state.items) as int;
    let carry = state.items.skip(start);
    let kept = FlowState { items: state.items.take(start), ..state };
    match state.past(kept.finish_region(false)) {
        Ok(fresh) => {
            law_finishing_keeps_pace(kept, false);
            lemma_feed(fresh, carry, 0);
            match fresh.feed(carry, 0) {
                Ok(fed) => lemma_pace_goes_on(state, fresh, fed),
                Err(_) => {},
            }
        },
        Err(_) => {},
    }
}

/// The step `place_line` keeps pace.
pub(crate) proof fn lemma_place_line(state: FlowState, lines: Lines, i: nat)
    ensures
        state.place_line(lines, i) matches Ok(next) ==> next.keeps_pace(state),
    decreases state.engine.route.depth_left() + 1, state.budget(), 11nat, 0nat, 0nat,
{
    reveal(FlowState::place_line);
    reveal(FlowState::place_line_def);
    reveal(FlowState::handle_item);
    reveal(FlowState::finish_region);

    let led = if i > 0 {
        state.after(state.handle_item(FlowItemView::Absolute(lines.leading, true)))
    } else {
        Ok(state)
    };
    if i > 0 {
        law_items_keep_pace(state, FlowItemView::Absolute(lines.leading, true));
    }
    match led {
        Ok(led) => {
            let broken = if led.breaks_before(lines, i as int) {
                state.after(led.finish_region(false))
            } else {
                Ok(led)
            };
            if led.breaks_before(lines, i as int) {
                law_finishing_keeps_pace(led, false);
            }
            match broken {
                Ok(broken) => {
                    lemma_pace_goes_on(state, led, broken);
                    let (tagged, frame) = broken.drain_tag(lines.frames[i as int]);
                    let item = FlowItemView::Frame {
                        frame,
                        align: lines.align,
                        sticky: false,
                        movable: true,
                    };
                    law_items_keep_pace(tagged, item);
                    match tagged.handle_item(item) {
                        Ok(placed) => lemma_pace_goes_on(state, tagged, placed),
                        Err(_) => {},
                    }
                },
                Err(_) => {},
            }
        },
        Err(_) => {},
    }
}

/// The step `handle_par` keeps pace.
pub(crate) proof fn lemma_handle_par(state: FlowState, par: ParElem, styles: Styles)
    ensures
        state.handle_par(par, styles) matches Ok(next) ==> next.keeps_pace(state),
    decreases state.engine.route.depth_left() + 1, state.budget(), 13nat, 0nat, 0nat,
{
    reveal(FlowState::handle_par);
    reveal(FlowState::handle_par_def);
    reveal(FlowState::migrate_until_fits);
    reveal(FlowState::place_lines);

    let frames = lines_of(par, state.last_was_par, state.regions.base(), state.regions.expand.x);
    let migrated = if frames.len() > 0 {
        state.after(state.migrate_until_fits(frames[0].size.y))
    } else {
        Ok(state)
    };
    if frames.len() > 0 {
        lemma_migrate_until_fits(state, frames[0].size.y);
    }
    match migrated {
        Ok(migrated) => {
            lemma_place_lines(migrated, Lines::new(frames, par, styles), 0);
            match migrated.place_lines(Lines::new(frames, par, styles), 0) {
                Ok(placed) => lemma_pace_goes_on(state, migrated, placed),
                Err(_) => {},
            }
        },
        Err(_) => {},
    }
}

/// The step `place_block_frame` keeps pace.
pub(crate) proof fn lemma_place_block_frame(state: FlowState, frame: FrameView, i: nat, align: Axes<FixedAlignment>, sticky: bool)
    ensures
        state.place_block_frame(frame, i, align, sticky) matches Ok(next) ==> next.keeps_pace(state),
    decreases state.engine.route.depth_left() + 1, state.budget(), 11nat, 0nat, 0nat,
{
    reveal(FlowState::place_block_frame);
    reveal(FlowState::place_block_frame_def);
    reveal(FlowState::handle_item);
    reveal(FlowState::finish_region);

    let fresh = if i > 0 {
        state.after(state.finish_region(false))
    } else {
        Ok(state)
    };
    if i > 0 {
        law_finishing_keeps_pace(state, false);
    }
    match fresh {
        Ok(fresh) => {
            let (tagged, frame) = fresh.drain_tag(frame);
            let item = FlowItemView::Frame { frame, align, sticky, movable: false };
            law_items_keep_pace(tagged, item);
            match tagged.handle_item(item) {
                Ok(placed) => lemma_pace_goes_on(state, tagged, placed),
                Err(_) => {},
            }
        },
        Err(_) => {},
    }
}

/// The step `enter_block` keeps pace.
pub(crate) proof fn lemma_enter_block(state: FlowState, block: BlockElem)
    ensures
        state.enter_block(block) matches Ok(next) ==> next.keeps_pace(state),
    decreases state.engine.route.depth_left() + 1, state.budget(), 11nat, 0nat, 0nat,
{
    reveal(FlowState::enter_block);
    reveal(FlowState::enter_block_def);
    reveal(FlowState::finish_region);

    let deferred = if state.root && block.rootable {
        FlowState { root: false, regions: state.regions.with_root(true), ..state }
    } else {
        state
    };
    if deferred.regions.is_full() {
        law_finishing_keeps_pace(deferred, false);
    }
}

/// The step `handle_block` keeps pace.
pub(crate) proof fn lemma_handle_block(state: FlowState, block: BlockElem, styles: Styles)
    ensures
        state.handle_block(block, styles) matches Ok(next) ==> next.keeps_pace(state),
    decreases state.engine.route.depth_left() + 1, state.budget(), 13nat, 0nat, 0nat,
{
    reveal(FlowState::handle_block);
    reveal(FlowState::handle_block_def);
    reveal(FlowState::enter_block);
    reveal(FlowState::place_block);
    reveal(FlowState::try_handle_footnotes);

    match state.after(state.enter_block(block)) {
        Ok(fresh) => {
            lemma_enter_block(state, block);
            match layout_block(state.engine, block, styles, fresh.regions) {
                Ok(frames) => {
                    let placing = fresh.place_block(
                        frames,
                        0,
                        Seq::empty(),
                        styles.align,
                        block.sticky,
                    );
                    lemma_place_block(fresh, frames, 0, Seq::empty(), styles.align, block.sticky);
                    match state.after_notes(placing) {
                        Ok(placed) => {
                            lemma_pace_goes_on(state, fresh, placed.state);
                            lemma_try_handle_footnotes(placed.state, placed.notes);
                            match placed.state.try_handle_footnotes(placed.notes) {
                                Ok(next) => lemma_pace_goes_on(state, placed.state, next),
                                Err(_) => {},
                            }
                        },
                        Err(_) => {},
                    }
                },
                Err(_) => {},
            }
        },
        Err(_) => {},
    }
}

/// The step `handle_place` keeps pace.
pub(crate) proof fn lemma_handle_place(state: FlowState, place: PlaceElem, span: Span, styles: Styles)
    ensures
        state.handle_place(place, span, styles) matches Ok(next) ==> next.keeps_pace(state),
    decreases state.engine.route.depth_left() + 1, state.budget(), 13nat, 0nat, 0nat,
{
    reveal(FlowState::handle_place);
    reveal(FlowState::handle_place_def);
    reveal(FlowState::handle_item);

    match layout_placed(state.engine, place, span, styles, state.regions.base()) {
        Ok(frame) => law_items_keep_pace(state, FlowState::placed_item(place, frame)),
        Err(_) => {},
    }
}

/// The step `handle_v` keeps pace.
pub(crate) proof fn lemma_handle_v(state: FlowState, v: VElem)
    ensures
        state.handle_v(v) matches Ok(next) ==> next.keeps_pace(state),
    decreases state.engine.route.depth_left() + 1, state.budget(), 13nat, 0nat, 0nat,
{
    reveal(FlowState::handle_v);
    reveal(FlowState::handle_v_def);
    reveal(FlowState::handle_item);

    law_items_keep_pace(state, state.spacing_item(v));
}

/// The step `handle_colbreak` keeps pace.
pub(crate) proof fn lemma_handle_colbreak(state: FlowState)
    ensures
        state.handle_colbreak() matches Ok(next) ==> next.keeps_pace(state),
    decreases state.engine.route.depth_left() + 1, state.budget(), 13nat, 0nat, 0nat,
{
    reveal(FlowState::handle_colbreak);
    reveal(FlowState::handle_colbreak_def);
    reveal(FlowState::finish_region);

    if state.regions.may_progress() {
        law_finishing_keeps_pace(state, true);
    }
}

/// The step `handle_flush` keeps pace.
pub(crate) proof fn lemma_handle_flush(state: FlowState)
    ensures
        state.handle_flush() matches Ok(next) ==> next.keeps_pace(state),
    decreases state.engine.route.depth_left() + 1, state.budget(), 13nat, 0nat, 0nat,
{
    reveal(FlowState::handle_flush);
    reveal(FlowState::handle_flush_def);
    reveal(FlowState::feed);
    reveal(FlowState::flush_floats);

    let cleared = FlowState { pending_floats: Seq::empty(), ..state };
    match state.after(cleared.feed(state.pending_floats, 0)) {
        Ok(fed) => {
            lemma_feed(cleared, state.pending_floats, 0);
            lemma_flush_floats(fed);
            match fed.flush_floats() {
                Ok(rest) => lemma_pace_goes_on(state, fed, rest),
                Err(_) => {},
            }
        },
        Err(_) => {},
    }
}

/// The step `handle_child` keeps pace.
pub(crate) proof fn lemma_handle_child(state: FlowState, child: StyledElem)
    ensures
        state.handle_child(child) matches Ok(next) ==> next.keeps_pace(state),
    decreases state.engine.route.depth_left() + 1, state.budget(), 14nat, 0nat, 0nat,
{
    reveal(FlowState::handle_child);
    reveal(FlowState::handle_child_def);
    reveal(FlowState::handle_v);
    reveal(FlowState::handle_colbreak);
    reveal(FlowState::handle_par);
    reveal(FlowState::handle_block);
    reveal(FlowState::handle_place);
    reveal(FlowState::handle_flush);

    match *child.child.elem {
        Elem::V(elem) => lemma_handle_v(state, elem),
        Elem::Colbreak(_) => lemma_handle_colbreak(state),
        Elem::Par(elem) => lemma_handle_par(state, elem, child.styles),
        Elem::Block(elem) => lemma_handle_block(state, elem, child.styles),
        Elem::Place(elem) => lemma_handle_place(state, elem, child.child.span, child.styles),
        Elem::Flush(_) => lemma_handle_flush(state),
        _ => {},
    }
}

/// Finishing a region finishes a frame.
pub proof fn law_finishing_adds_a_frame(state: FlowState, force: bool)
    ensures
        state.finish_region(force) matches Ok(next) ==> next.finished.len()
            > state.finished.len(),
{
    reveal(FlowState::finish_region);
    reveal(FlowState::finish_region_def);
    reveal(FlowState::feed);
    if !state.skips_region(force) && state.finish_region(force) is Ok {
        lemma_feed(state.entered(force), state.pending_floats, 0);
    }
}

/// The frames of a flow and its regions keep pace to the end: the frames
/// that finishing a flow yields are the finished frames of a state that has
/// entered one region for every frame since the flow was finished, and at
/// least one frame has been added.
pub proof fn law_finish_keeps_pace(state: FlowState)
    ensures
        state.finish() matches Ok(frames) ==> exists|done: FlowState|
            done.finished == frames && #[trigger] done.keeps_pace(state) && done.finished.len()
                > state.finished.len(),
{
    reveal(FlowState::finish);
    reveal(FlowState::finish_def);
    reveal(FlowState::finish_backlog);
    reveal(FlowState::finish_region);
    reveal(FlowState::finish_items);
    if state.expand.y {
        lemma_finish_backlog(state);
    }
    let filled = if state.expand.y {
        state.after(state.finish_backlog())
    } else {
        Ok(state)
    };
    if filled is Ok {
        let filled = filled->Ok_0;
        let step = filled.finish_region(true);
        law_finishing_keeps_pace(filled, true);
        law_finishing_adds_a_frame(filled, true);
        if step is Ok && step->Ok_0.follows(state) {
            let last = step->Ok_0;
            lemma_finish_items(last);
            if last.finish_items() is Ok {
                let done = last.finish_items()->Ok_0;
                assert(done.keeps_pace(state));
                assert(state.finish() == Ok::<Seq<FrameView>, LayoutError>(done.finished));
            }
        }
    }
}

/// The frames of a flow and its regions keep pace: the frames of a flow are
/// the finished frames of a state that has entered one region for every
/// frame that the flow has finished.
pub proof fn law_flow_keeps_pace(state: FlowState, children: Seq<StyledElem>)
    ensures
        state.layout(children) matches Ok(frames) ==> exists|done: FlowState|
            done.finished == frames && #[trigger] done.keeps_pace(state) && done.finished.len()
                > state.finished.len(),
{
    reveal(FlowState::layout);
    reveal(FlowState::layout_def);
    reveal(FlowState::handle_children);
    reveal(FlowState::finish);
    let step = state.handle_children(children, 0);
    law_children_keep_pace(state, children, 0);
    if step is Ok && step->Ok_0.follows(state) {
        let laid = step->Ok_0;
        law_finish_keeps_pace(laid);
        if laid.finish() is Ok {
            let frames = laid.finish()->Ok_0;
            let done = choose|done: FlowState|
                done.finished == frames && #[trigger] done.keeps_pace(laid) && done.finished.len()
                    > laid.finished.len();
            assert(done.keeps_pace(state));
        }
    }
}

/// What is finished stays finished: the frames of a flow begin with the
/// frames that were finished when the layout of the children began, as
/// they were then.
pub proof fn law_finished_frames_stay(state: FlowState, children: Seq<StyledElem>)
    ensures
        state.layout(children) matches Ok(frames) ==> frames.len() > state.finished.len()
            && frames.take(state.finished.len() as int) == state.finished,
{
    law_flow_keeps_pace(state, children);
    if state.layout(children) is Ok {
        let frames = state.layout(children)->Ok_0;
        let done = choose|done: FlowState|
            done.finished == frames && #[trigger] done.keeps_pace(state) && done.finished.len()
                > state.finished.len();
        assert(frames.take(state.finished.len() as int) =~= state.finished);
    }
}

} // verus!
