//! Footnotes: their entries go to the foot of the region of their reference.

use crate::content::{Content, Elem, FootnoteBody};
use crate::engine::LayoutError;
use crate::flow::fragment::{layout_fragment, layout_frame};
use crate::flow::{collect_footnotes, rotate_notes, FlowLayouter};
use crate::frame::{frame_views, Frame};
use crate::geom::{Axes, Point, Size};
use crate::items::{item_views, FlowItem, FlowItemView};
use crate::model;
use crate::model::{FlowState, Snapshot};
use crate::regions::Region;
use vstd::prelude::*;

verus! {

impl<'a> FlowLayouter<'a> {
    /// Tries to process all footnotes in the frame, placing them in the
    /// next region if they could not be placed in the current one.
    pub fn try_handle_footnotes(&mut self, notes: Vec<Content>) -> (r: Result<(), LayoutError>)
        ensures
            model::ran(old(self)@, old(self)@.try_handle_footnotes(notes@), final(self)@, r),
        decreases old(self)@.engine.route.depth_left() + 1, old(self)@.budget(), 5nat, 0nat,
    {
        proof {
            reveal(FlowState::try_handle_footnotes);
            reveal(FlowState::try_handle_footnotes_def);
            reveal(FlowState::finish_region);
        }
        let mut notes = notes;
        if !self.root {
            return Ok(());
        }
        // When we are already in the last region, we can directly force
        // the footnotes.

        let in_last = self.regions.in_last();
        let fit = match self.handle_footnotes(&mut notes, false, in_last) {
            Err(e) => {
                return Err(e);
            },
            Ok(fit) => fit,
        };
        if !fit {
            match self.finish_region(false) {
                Err(e) => {
                    return Err(e);
                },
                Ok(()) => {},
            }
            match self.handle_footnotes(&mut notes, false, true) {
                Err(e) => {
                    return Err(e);
                },
                Ok(_) => {},
            }
        }
        Ok(())
    }

    /// Finishes the region between two frames of an entry; the region that
    /// follows gets its separator and gives up the gap.
    fn continue_entry(&mut self) -> (r: Result<(), LayoutError>)
        ensures
            model::ran(old(self)@, old(self)@.continue_entry(), final(self)@, r),
        decreases old(self)@.engine.route.depth_left() + 1, old(self)@.budget(), 2nat, 0nat,
    {
        proof {
            reveal(FlowState::continue_entry);
            reveal(FlowState::continue_entry_def);
            reveal(FlowState::finish_region);
            reveal(FlowState::layout_footnote_separator);
        }
        match self.finish_region(false) {
            Err(e) => {
                return Err(e);
            },
            Ok(()) => {},
        }
        match self.layout_footnote_separator() {
            Err(e) => {
                return Err(e);
            },
            Ok(()) => {},
        }
        let ghost separated = self@;
        self.regions.size.y = self.regions.size.y.minus(self.styles.footnote_gap);
        proof {
            assert(self@ =~= separated.spend(old(self)@.styles.footnote_gap));
        }
        Ok(())
    }

    /// Places the frames of the entry of a footnote, and collects the
    /// footnotes in them.
    fn place_entry(&mut self, notes: &mut Vec<Content>, frames: Vec<Frame>) -> (r: Result<
        (),
        LayoutError,
    >)
        ensures
            match old(self)@.place_entry(old(notes)@, frame_views(frames@), 0) {
                Ok(next) => r is Ok && final(self)@ == next.state && final(notes)@ == next.notes
                    && final(self)@.follows(old(self)@),
                Err(e) => r == Err::<(), LayoutError>(e),
            },
            final(notes)@.len() >= old(notes)@.len(),
        decreases old(self)@.engine.route.depth_left() + 1, old(self)@.budget(), 2nat, frames@.len()
            + 1,
    {
        proof {
            reveal(FlowState::place_entry);
            reveal(FlowState::place_entry_def);
            reveal(FlowState::continue_entry);
        }
        let ghost all = frame_views(frames@);
        let mut rest = frames;
        let len = rest.len();
        assert(forall|j: int| 0 <= j < len ==> frame_views(rest@)[j] == rest@[j]@);
        let mut i: usize = 0;
        while i < len
            invariant
                i <= len,
                len == rest@.len(),
                all == frame_views(frames@),
                all.len() == len,
                forall|j: int| i <= j < len ==> (#[trigger] rest@[j])@ == all[j],
                self@.follows(old(self)@),
                notes@.len() >= old(notes)@.len(),
                self@.place_entry(notes@, all, i as nat) == old(self)@.place_entry(
                    old(notes)@,
                    all,
                    0,
                ),
            decreases len - i,
        {
            proof {
                reveal(FlowState::place_entry);
                reveal(FlowState::place_entry_def);
                reveal(FlowState::continue_entry);
            }
            let ghost pre = self@;
            let mut frame = Frame::soft(Size::zero());
            core::mem::swap(&mut rest[i], &mut frame);
            collect_footnotes(notes, &frame);
            if i > 0 {
                match self.continue_entry() {
                    Err(e) => {
                        return Err(e);
                    },
                    Ok(()) => {},
                }
            }
            let ghost entered = self@;
            self.regions.size.y = self.regions.size.y.minus(frame.height());
            let ghost view = frame@;
            self.items.push(FlowItem::Footnote(frame));
            proof {
                assert(item_views(self.items@) =~= entered.items.push(FlowItemView::Footnote(view)));
                assert(self@ =~= entered.spend(view.size.y).push(FlowItemView::Footnote(view)));
            }
            i += 1;
        }
        Ok(())
    }

    /// Gets ready to lay out the entry of a footnote.
    fn start_footnote(&mut self) -> (r: Result<(), LayoutError>)
        ensures
            model::ran(old(self)@, old(self)@.start_footnote(), final(self)@, r),
        decreases old(self)@.engine.route.depth_left() + 1, old(self)@.budget(), 3nat, 0nat,
    {
        proof {
            reveal(FlowState::start_footnote);
            reveal(FlowState::start_footnote_def);
            reveal(FlowState::layout_footnote_separator);
        }
        if !self.has_footnotes {
            match self.layout_footnote_separator() {
                Err(e) => {
                    return Err(e);
                },
                Ok(()) => {},
            }
        }
        let ghost separated = self@;
        self.regions.size.y = self.regions.size.y.minus(self.styles.footnote_gap);
        proof {
            assert(self@ =~= separated.spend(old(self)@.styles.footnote_gap));
        }
        Ok(())
    }

    /// Places the entry of a footnote, which was laid out as `frames`,
    /// unless it does not fit and everything is undone.
    ///
    /// Returns true if the entry was placed.
    fn end_footnote(
        &mut self,
        snapshot: Snapshot,
        notes: &mut Vec<Content>,
        k: usize,
        frames: Vec<Frame>,
        force: bool,
    ) -> (r: Result<bool, LayoutError>)
        requires
            k < old(notes)@.len(),
        ensures
            model::ran_notes(
                old(self)@,
                old(self)@.end_footnote(
                    snapshot,
                    old(notes)@,
                    k as nat,
                    frame_views(frames@),
                    force,
                ),
                final(self)@,
                final(notes)@,
                r,
            ),
        decreases old(self)@.engine.route.depth_left() + 1, old(self)@.budget(), 3nat, 0nat,
    {
        proof {
            reveal(FlowState::end_footnote);
            reveal(FlowState::end_footnote_def);
            reveal(FlowState::place_entry);
        }
        let ghost charged = self@;
        // If the entry of the first note didn't fit, abort (to keep
        // footnote and entry together).
        if !force && k == 0 && frames.len() > 0 && frames[0].is_empty() {
            assert(frame_views(frames@)[0] == frames@[0]@);
            // Undo everything.
            notes.truncate(snapshot.notes_len);
            self.items.truncate(snapshot.items_len);
            self.regions.size = snapshot.size;
            self.has_footnotes = snapshot.has_footnotes;
            proof {
                if snapshot.items_len < charged.items.len() {
                    assert(item_views(self.items@) =~= charged.items.take(
                        snapshot.items_len as int,
                    ));
                } else {
                    assert(item_views(self.items@) =~= charged.items);
                }
                assert(self@ =~= charged.rolled_back(snapshot));
                if snapshot.notes_len < old(notes)@.len() {
                    assert(notes@ =~= old(notes)@.take(snapshot.notes_len as int));
                } else {
                    assert(notes@ =~= old(notes)@);
                }
            }
            return Ok(false);
        }
        proof {
            if frames@.len() > 0 {
                assert(frame_views(frames@)[0] == frames@[0]@);
            }
            assert(!FlowState::gives_up(frame_views(frames@), k as nat, force));
        }
        let prev = notes.len();
        match self.place_entry(notes, frames) {
            Err(e) => {
                return Err(e);
            },
            Ok(()) => {},
        }
        // Process the nested notes before dealing with further top-level
        // notes.
        let nested = notes.len() - prev;
        if nested > 0 {
            rotate_notes(notes, k + 1, nested);
        }
        Ok(true)
    }

    /// Processes one footnote: lays out its entry and places it, unless it
    /// does not fit and everything is undone.
    ///
    /// Returns true if the entry was placed.
    fn handle_footnote(
        &mut self,
        snapshot: Snapshot,
        notes: &mut Vec<Content>,
        k: usize,
        body: &Content,
        force: bool,
    ) -> (r: Result<bool, LayoutError>)
        requires
            k < old(notes)@.len(),
        ensures
            model::ran_notes(
                old(self)@,
                old(self)@.handle_footnote(snapshot, old(notes)@, k as nat, *body, force),
                final(self)@,
                final(notes)@,
                r,
            ),
        decreases old(self)@.engine.route.depth_left() + 1, old(self)@.budget(), 3nat, 1nat,
    {
        proof {
            reveal(FlowState::handle_footnote);
            reveal(FlowState::handle_footnote_def);
            reveal(FlowState::start_footnote);
            reveal(FlowState::end_footnote);
            reveal(model::layout_fragment);
        }
        match self.start_footnote() {
            Err(e) => {
                return Err(e);
            },
            Ok(()) => {},
        }
        if notes[k].location.is_none() {
            return Err(LayoutError::UnlocatedFootnote(notes[k].span));
        }
        let frames = match layout_fragment(
            self.engine,
            body,
            self.styles,
            self.regions.with_root(false),
        ) {
            Err(e) => {
                return Err(e);
            },
            Ok(frames) => frames,
        };
        self.end_footnote(snapshot, notes, k, frames, force)
    }

    /// Processes all footnotes in the frame.
    ///
    /// Returns true if the footnote entries fit in the allotted regions.
    pub fn handle_footnotes(&mut self, notes: &mut Vec<Content>, movable: bool, force: bool) -> (r:
        Result<bool, LayoutError>)
        ensures
            model::ran_notes(
                old(self)@,
                old(self)@.handle_footnotes(old(notes)@, movable, force),
                final(self)@,
                final(notes)@,
                r,
            ),
        decreases old(self)@.engine.route.depth_left() + 1, old(self)@.budget(), 4nat, usize::MAX
            + 1,
    {
        proof {
            reveal(FlowState::footnotes_from);
            reveal(FlowState::footnotes_from_def);
            reveal(FlowState::handle_footnote);
        }
        let snapshot = Snapshot {
            notes_len: notes.len(),
            items_len: self.items.len(),
            size: self.regions.size,
            has_footnotes: self.has_footnotes,
        };
        assert(snapshot == old(self)@.snapshot(old(notes)@));

        // Process footnotes one at a time.
        let mut k: usize = 0;
        while k < notes.len()
            invariant
                snapshot == old(self)@.snapshot(old(notes)@),
                self@.follows(old(self)@),
                self@.footnotes_from(snapshot, notes@, k as nat, force) == old(
                    self,
                )@.footnotes_from(snapshot, old(notes)@, 0, force),
            decreases usize::MAX - k,
        {
            proof {
                reveal(FlowState::footnotes_from);
                reveal(FlowState::footnotes_from_def);
                reveal(FlowState::handle_footnote);
            }
            let body = match &*notes[k].elem {
                Elem::Footnote(footnote) => match &footnote.body {
                    FootnoteBody::Content(body) => Some(body.clone()),
                    FootnoteBody::Reference(_) => None,
                },
                _ => None,
            };
            assert(body == model::note_body(notes@[k as int]));
            let ghost pre = self@;
            let ghost pre_notes = notes@;
            assert(pre.footnotes_from(snapshot, pre_notes, k as nat, force)
                == pre.footnotes_from_def(snapshot, pre_notes, k as nat, force));
            match body {
                None => {},
                Some(body) => {
                    let fit = match self.handle_footnote(snapshot, notes, k, &body, force) {
                        Err(e) => {
                            return Err(e);
                        },
                        Ok(fit) => fit,
                    };
                    if !fit {
                        return Ok(false);
                    }
                },
            }
            k += 1;
        }
        Ok(true)
    }

    /// Layout and save the footnote separator, typically a line.
    pub fn layout_footnote_separator(&mut self) -> (r: Result<(), LayoutError>)
        ensures
            model::ran(old(self)@, old(self)@.layout_footnote_separator(), final(self)@, r),
        decreases old(self)@.engine.route.depth_left() + 1, old(self)@.budget(), 0nat, 0nat,
    {
        proof {
            reveal(FlowState::layout_footnote_separator);
            reveal(FlowState::layout_footnote_separator_def);
            reveal(model::layout_frame);
        }
        let expand = Axes { x: self.regions.expand.x, y: false };
        let pod = Region::new(self.regions.base(), expand);
        let styles = self.styles;
        let mut frame = match layout_frame(self.engine, &styles.footnote_separator, styles, pod) {
            Err(e) => {
                return Err(e);
            },
            Ok(frame) => frame,
        };
        let clearance = styles.footnote_clearance;
        frame.set_size(Size::new(frame.width(), frame.height().plus(clearance)));
        frame.translate(Point::with_y(clearance));
        self.has_footnotes = true;
        self.regions.size.y = self.regions.size.y.minus(frame.height());
        let ghost view = frame@;
        self.items.push(FlowItem::Footnote(frame));
        proof {
            assert(item_views(self.items@) =~= old(self)@.items.push(FlowItemView::Footnote(view)));
            assert(self@ =~= FlowState { has_footnotes: true, ..old(self)@ }.spend(
                view.size.y,
            ).push(FlowItemView::Footnote(view)));
        }
        Ok(())
    }
}

} // verus!
