//! Where footnotes go, and the frames that refer to them.

use crate::content::Content;
use crate::items::FlowItemView;
use crate::laws::law_giving_up_undoes_everything;
use crate::model::{collect_footnotes, note_body, FlowState, Snapshot};
use vstd::prelude::*;

verus! {

/// Past the first note, and where the placement is forced, the notes are
/// placed whether they fit or not.
proof fn lemma_notes_are_kept(
    state: FlowState,
    snapshot: Snapshot,
    notes: Seq<Content>,
    k: nat,
    force: bool,
)
    requires
        k >= 1 || force,
    ensures
        state.footnotes_from(snapshot, notes, k, force) matches Ok(done) ==> done.fit,
    decreases state.budget(), usize::MAX - k,
{
    reveal(FlowState::footnotes_from);
    reveal(FlowState::footnotes_from_def);
    reveal(FlowState::handle_footnote);
    if k < notes.len() && notes.len() <= usize::MAX {
        match note_body(notes[k as int]) {
            None => lemma_notes_are_kept(state, snapshot, notes, k + 1, force),
            Some(body) => {
                let step = state.handle_footnote(snapshot, notes, k, body, force);
                lemma_note_is_kept(state, snapshot, notes, k, body, force);
                if step is Ok && step->Ok_0.state.follows(state) {
                    let done = step->Ok_0;
                    assert(state.footnotes_from(snapshot, notes, k, force)
                        == done.state.footnotes_from(snapshot, done.notes, k + 1, force));
                    lemma_notes_are_kept(done.state, snapshot, done.notes, k + 1, force);
                }
            },
        }
    }
}

/// Past the first note, and where the placement is forced, the entry of a
/// note is kept as it comes.
proof fn lemma_note_is_kept(
    state: FlowState,
    snapshot: Snapshot,
    notes: Seq<Content>,
    k: nat,
    body: Content,
    force: bool,
)
    requires
        k >= 1 || force,
    ensures
        state.handle_footnote(snapshot, notes, k, body, force) matches Ok(done) ==> done.fit,
{
    reveal(FlowState::handle_footnote);
    reveal(FlowState::handle_footnote_def);
    reveal(FlowState::start_footnote);
    reveal(FlowState::end_footnote);
    reveal(FlowState::end_footnote_def);
    reveal(FlowState::place_entry);
}

/// Notes that are placed by force are placed.
pub proof fn law_forced_notes_are_placed(state: FlowState, notes: Seq<Content>, movable: bool)
    ensures
        state.handle_footnotes(notes, movable, true) matches Ok(done) ==> done.fit,
{
    reveal(FlowState::footnotes_from);
    lemma_notes_are_kept(state, state.snapshot(notes), notes, 0, true);
}

/// Notes that do not fit leave no trace: where handling the notes of a
/// frame answers that they did not fit, the state and the notes are as they
/// were before, so that no entry stands in a region without the frame that
/// refers to it.
pub proof fn law_notes_that_do_not_fit_leave_no_trace(
    state: FlowState,
    notes: Seq<Content>,
    movable: bool,
    force: bool,
)
    requires
        state.items.len() <= usize::MAX,
    ensures
        state.handle_footnotes(notes, movable, force) matches Ok(done) ==> done.fit || (done.state
            == state && done.notes == notes),
{
    reveal(FlowState::footnotes_from);
    reveal(FlowState::footnotes_from_def);
    reveal(FlowState::handle_footnote);
    let snapshot = state.snapshot(notes);
    if 0 < notes.len() && notes.len() <= usize::MAX {
        match note_body(notes[0]) {
            None => lemma_notes_are_kept(state, snapshot, notes, 1, force),
            Some(body) => {
                let step = state.handle_footnote(snapshot, notes, 0, body, force);
                law_giving_up_undoes_everything(state, notes, 0, body, force);
                if step is Ok && step->Ok_0.state.follows(state) && step->Ok_0.fit {
                    let done = step->Ok_0;
                    assert(state.footnotes_from(snapshot, notes, 0, force)
                        == done.state.footnotes_from(snapshot, done.notes, 1, force));
                    lemma_notes_are_kept(done.state, snapshot, done.notes, 1, force);
                }
            },
        }
    }
}

/// A movable frame of the root flow and its footnotes go into a region
/// together. Where the notes fit next to the frame, both are in the region.
/// Where they do not, nothing of them stays: the region is finished as it
/// was before the frame came, and in the region that follows the frame is
/// taken in again and the notes are placed behind it, whether they fit or
/// not.
pub proof fn law_frame_goes_where_its_notes_go(state: FlowState, item: FlowItemView)
    requires
        item is Frame,
        item->Frame_movable,
        state.root,
        state.items.len() < usize::MAX,
    ensures
        ({
            let frame = item->Frame_frame;
            let notes = collect_footnotes(Seq::empty(), frame);
            let with = state.spend(frame.size.y).push(item);
            state.take_frame(item) matches Ok(next) ==> {
                &&& with.handle_footnotes(notes, true, state.regions.in_last()) matches Ok(done)
                    && if done.fit {
                    next == done.state
                } else {
                    &&& state.spend(frame.size.y).finish_region(false) matches Ok(fresh)
                        && fresh.push(item).spend(frame.size.y).handle_footnotes(
                        notes,
                        true,
                        true,
                    ) matches Ok(forced) && forced.fit && next == forced.state
                }
            }
        }),
{
    reveal(FlowState::take_frame);
    reveal(FlowState::take_frame_def);
    reveal(FlowState::move_on);
    reveal(FlowState::move_on_def);
    reveal(FlowState::finish_region);
    reveal(FlowState::footnotes_from);
    let frame = item->Frame_frame;
    let notes = collect_footnotes(Seq::empty(), frame);
    let with = state.spend(frame.size.y).push(item);
    let step = with.handle_footnotes(notes, true, state.regions.in_last());
    law_notes_that_do_not_fit_leave_no_trace(with, notes, true, state.regions.in_last());
    if step is Ok && step->Ok_0.state.follows(with) && !step->Ok_0.fit {
        let done = step->Ok_0;
        assert(done.state == with);
        assert(with.items.drop_last() =~= state.items);
        assert(with.pop() == state.spend(frame.size.y));
        let finished = state.spend(frame.size.y).finish_region(false);
        if finished is Ok && finished->Ok_0.follows(with) {
            let fresh = finished->Ok_0;
            assert(fresh.push_back(with.items) == fresh.push(item));
            law_forced_notes_are_placed(fresh.push(item).spend(frame.size.y), notes, true);
        }
    }
}

} // verus!
