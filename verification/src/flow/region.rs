//! Finishing a region: its frame is built, and the next region is entered.

use crate::engine::LayoutError;
use crate::flow::{all_out_of_flow, sticky_start, FlowLayouter};
use crate::frame::{frame_views, Frame, FrameView};
use crate::geom::{Abs, Fr, Point};
use crate::items::{item_views, measure_items, place_items, trim_weak_spacing, FlowItem, Plan};
use crate::model;
use crate::model::FlowState;
use vstd::prelude::*;

verus! {

impl<'a> FlowLayouter<'a> {
    /// Finish the frame for one region.
    ///
    /// Set `force` to `true` to allow creating a frame for out-of-flow
    /// elements only (this is used to force the creation of a frame in case
    /// the remaining elements are all out-of-flow).
    pub fn finish_region(&mut self, force: bool) -> (r: Result<(), LayoutError>)
        ensures
            model::ran(old(self)@, old(self)@.finish_region(force), final(self)@, r),
            r is Ok ==> final(self)@.passes(old(self)@),
            !old(self)@.skips_region(force) ==> (old(self)@.infinite_axis() matches Some(e) ==> r
                == Err::<(), LayoutError>(e) && final(self)@ == old(self)@),
        decreases old(self)@.engine.route.depth_left() + 1, old(self)@.budget(), 1nat, 0nat,
    {
        proof {
            reveal(FlowState::finish_region);
            reveal(FlowState::finish_region_def);
            reveal(FlowState::region_frame);
            reveal(FlowState::feed);
        }
        let ghost pre = self@;
        // Early return if we don't have any relevant items.
        if !force && self.items.len() > 0 && all_out_of_flow(&self.items) {
            self.finished.push(Frame::soft(self.initial));
            self.regions.next();
            self.initial = self.regions.size;
            proof {
                vstd::std_specs::vec::axiom_spec_len(&self.finished);
                assert(frame_views(self.finished@) =~= pre.finished.push(
                    FrameView::soft(pre.initial),
                ));
                assert(self@ =~= pre.skipped());
            }
            return Ok(());
        }
        // Nothing is touched where the region cannot be finished.
        if !self.regions.size.x.is_finite() && self.expand.x {
            return Err(LayoutError::InfiniteWidth(self.span));
        }
        if !self.regions.size.y.is_finite() && self.expand.y {
            return Err(LayoutError::InfiniteHeight(self.span));
        }
        // Trim weak spacing.

        trim_weak_spacing(&mut self.items);

        // Determine the used size and the size of the flow in this region.
        let gap = self.styles.footnote_gap;
        let measure = measure_items(&self.items, gap);
        let plan = Plan::new(measure, self.initial, self.expand, self.has_footnotes, gap);

        // Place all frames.
        let (mut output, offset) = place_items(&mut self.items, plan, measure.float_top);
        if force && self.pending_tags.len() > 0 {
            output.push_tags(Point::with_y(offset), &self.pending_tags);
            self.pending_tags.clear();
        }
        assert(output@ == pre.region_frame(force));

        // Advance to the next region.
        self.finished.push(output);
        self.regions.next();
        self.initial = self.regions.size;
        self.has_footnotes = false;

        // Try to place floats into the next region.
        let mut floats: Vec<FlowItem> = Vec::new();
        core::mem::swap(&mut floats, &mut self.pending_floats);
        proof {
            vstd::std_specs::vec::axiom_spec_len(&self.finished);
            assert(self.pending_tags@ == if force {
                Seq::<crate::content::Tag>::empty()
            } else {
                pre.pending_tags
            });
            assert(frame_views(self.finished@) =~= pre.finished.push(pre.region_frame(force)));
            assert(item_views(self.items@) =~= Seq::<crate::items::FlowItemView>::empty());
            assert(item_views(self.pending_floats@) =~= Seq::<
                crate::items::FlowItemView,
            >::empty());
            assert(self@ =~= pre.entered(force));
            assert(self@.passes(pre));
        }
        self.feed(floats)
    }

    /// Handles the items, in order.
    pub(crate) fn feed(&mut self, items: Vec<FlowItem>) -> (r: Result<(), LayoutError>)
        ensures
            model::ran(old(self)@, old(self)@.feed(item_views(items@), 0), final(self)@, r),
        decreases old(self)@.engine.route.depth_left() + 1, old(self)@.budget(), 8nat, items@.len(),
    {
        proof {
            reveal(FlowState::feed);
            reveal(FlowState::feed_def);
            reveal(FlowState::handle_item);
        }
        let ghost all = item_views(items@);
        let mut rest = items;
        let n = rest.len();
        let mut i: usize = 0;
        while i < n
            invariant
                i <= n,
                n == rest@.len(),
                all == item_views(items@),
                all.len() == n,
                forall|j: int| i <= j < n ==> (#[trigger] rest@[j])@ == all[j],
                self@.follows(old(self)@),
                self@.feed(all, i as nat) == old(self)@.feed(all, 0),
            decreases n - i,
        {
            proof {
                reveal(FlowState::feed);
                reveal(FlowState::feed_def);
                reveal(FlowState::handle_item);
            }
            let mut item = FlowItem::Fractional(Fr::zero());
            core::mem::swap(&mut rest[i], &mut item);
            match self.handle_item(item) {
                Err(e) => {
                    return Err(e);
                },
                Ok(()) => {},
            }
            i += 1;
        }
        Ok(())
    }

    /// Finishes regions until `height` fits into the current one, or the
    /// current one is the last.
    pub(crate) fn make_room(&mut self, height: Abs) -> (r: Result<(), LayoutError>)
        ensures
            model::ran(old(self)@, old(self)@.make_room(height), final(self)@, r),
        decreases old(self)@.engine.route.depth_left() + 1, old(self)@.budget(), 6nat, 0nat,
    {
        proof {
            reveal(FlowState::make_room);
            reveal(FlowState::make_room_def);
            reveal(FlowState::finish_region);
        }
        while !self.regions.size.y.fits(height) && !self.regions.in_last()
            invariant
                self@.follows(old(self)@),
                self@.make_room(height) == old(self)@.make_room(height),
            decreases self@.budget(),
        {
            proof {
                reveal(FlowState::make_room);
                reveal(FlowState::make_room_def);
                reveal(FlowState::finish_region);
            }
            match self.finish_region(false) {
                Err(e) => {
                    return Err(e);
                },
                Ok(()) => {},
            }
        }
        Ok(())
    }

    /// Finish the region, migrating all sticky items to the next one.
    ///
    /// Returns whether we migrated into a last region.
    pub fn finish_region_with_migration(&mut self) -> (r: Result<bool, LayoutError>)
        ensures
            match old(self)@.finish_region_with_migration() {
                Ok(next) => r == Ok::<bool, LayoutError>(next.in_last) && final(self)@ == next.state
                    && final(self)@.passes(old(self)@),
                Err(e) => r == Err::<bool, LayoutError>(e),
            },
        decreases old(self)@.engine.route.depth_left() + 1, old(self)@.budget(), 9nat, 0nat,
    {
        proof {
            reveal(FlowState::finish_region_with_migration);
            reveal(FlowState::finish_region_with_migration_def);
            reveal(FlowState::finish_region);
            reveal(FlowState::feed);
        }
        let ghost pre = self@;
        // Find the suffix of sticky items.
        let start = sticky_start(&self.items);
        let carry = self.items.split_off(start);
        proof {
            assert(item_views(carry@) =~= pre.items.skip(start as int));
            assert(item_views(self.items@) =~= pre.items.take(start as int));
            assert(self@ =~= FlowState { items: pre.items.take(start as int), ..pre });
        }
        match self.finish_region(false) {
            Err(e) => {
                return Err(e);
            },
            Ok(()) => {},
        }
        let in_last = self.regions.in_last();
        match self.feed(carry) {
            Err(e) => {
                return Err(e);
            },
            Ok(()) => {},
        }
        Ok(in_last)
    }

    /// Finishes regions with migration until `height` fits into the current
    /// one, or the last region is reached.
    pub(crate) fn migrate_until_fits(&mut self, height: Abs) -> (r: Result<(), LayoutError>)
        ensures
            model::ran(old(self)@, old(self)@.migrate_until_fits(height), final(self)@, r),
        decreases old(self)@.engine.route.depth_left() + 1, old(self)@.budget(), 10nat, 0nat,
    {
        proof {
            reveal(FlowState::migrate_until_fits);
            reveal(FlowState::migrate_until_fits_def);
            reveal(FlowState::finish_region_with_migration);
        }
        let mut done = false;
        while !done && !self.regions.size.y.fits(height) && !self.regions.in_last()
            invariant
                self@.follows(old(self)@),
                done ==> old(self)@.migrate_until_fits(height) == Ok::<FlowState, LayoutError>(
                    self@,
                ),
                !done ==> self@.migrate_until_fits(height) == old(self)@.migrate_until_fits(
                    height,
                ),
            decreases self@.budget(),
        {
            proof {
                reveal(FlowState::migrate_until_fits);
                reveal(FlowState::migrate_until_fits_def);
                reveal(FlowState::finish_region_with_migration);
            }
            match self.finish_region_with_migration() {
                Err(e) => {
                    return Err(e);
                },
                Ok(in_last) => {
                    if in_last {
                        done = true;
                    }
                },
            }
        }
        Ok(())
    }
}

} // verus!
