//! Taking an item into the current region.

use crate::content::Content;
use crate::engine::LayoutError;
use crate::flow::{collect_footnotes, float_align, has_frame, FlowLayouter};
use crate::frame::Frame;
use crate::geom::{Abs, Axes, FixedAlignment, Point, Rel, Size, Smart};
use crate::items::{item_views, FlowItem, FlowItemView};
use crate::model;
use crate::model::FlowState;
use vstd::prelude::*;

verus! {

impl<'a> FlowLayouter<'a> {
    /// Takes spacing, or a footnote, into the region.
    fn take_plain(&mut self, item: FlowItem) -> (r: Result<(), LayoutError>)
        requires
            item is Absolute || item is Fractional || item is Footnote,
        ensures
            model::ran(old(self)@, old(self)@.handle_item(item@), final(self)@, r),
    {
        proof {
            reveal(FlowState::handle_item);
            reveal(FlowState::handle_item_def);
        }
        let ghost view = item@;
        match item {
            FlowItem::Absolute(v, weak) => {
                if weak && !has_frame(&self.items) {
                    return Ok(());
                }
                self.regions.size.y = self.regions.size.y.minus(v);
                self.items.push(FlowItem::Absolute(v, weak));
                proof {
                    assert(item_views(self.items@) =~= old(self)@.items.push(view));
                    assert(self@ =~= old(self)@.spend(v).push(view));
                }
                Ok(())
            },
            other => {
                self.items.push(other);
                proof {
                    assert(item_views(self.items@) =~= old(self)@.items.push(view));
                    assert(self@ =~= old(self)@.push(view));
                }
                Ok(())
            },
        }
    }

    /// Moves a frame and its footnotes, which did not fit next to it, on to
    /// the next region. The frame is the last item of the region.
    fn move_on(&mut self, notes: &mut Vec<Content>, height: Abs) -> (r: Result<(), LayoutError>)
        ensures
            model::ran(old(self)@, old(self)@.move_on(old(notes)@, height), final(self)@, r),
        decreases old(self)@.engine.route.depth_left() + 1, old(self)@.budget(), 5nat, 0nat,
    {
        proof {
            reveal(FlowState::move_on);
            reveal(FlowState::move_on_def);
            reveal(FlowState::finish_region);
        }
        let ghost failed = self@;
        let popped = self.items.pop();
        proof {
            if failed.items.len() > 0 {
                assert(item_views(self.items@) =~= failed.items.drop_last());
            }
            assert(self@ =~= failed.pop());
        }
        match self.finish_region(false) {
            Err(e) => {
                return Err(e);
            },
            Ok(()) => {},
        }
        let ghost fresh = self@;
        match popped {
            Some(popped) => {
                assert(popped@ == failed.items.last());
                self.items.push(popped);
                proof {
                    assert(item_views(self.items@) =~= fresh.items.push(failed.items.last()));
                }
            },
            None => {},
        }
        self.regions.size.y = self.regions.size.y.minus(height);
        proof {
            assert(self@ =~= fresh.push_back(failed.items).spend(height));
        }
        match self.handle_footnotes(notes, true, true) {
            Err(e) => Err(e),
            Ok(_) => Ok(()),
        }
    }

    /// Takes a frame of the flow into the current region, with its
    /// footnotes where it is movable.
    fn take_frame(
        &mut self,
        frame: Frame,
        align: Axes<FixedAlignment>,
        sticky: bool,
        movable: bool,
    ) -> (r: Result<(), LayoutError>)
        ensures
            model::ran(
                old(self)@,
                old(self)@.take_frame(FlowItemView::Frame { frame: frame@, align, sticky, movable }),
                final(self)@,
                r,
            ),
        decreases old(self)@.engine.route.depth_left() + 1, old(self)@.budget(), 6nat, 0nat,
    {
        proof {
            reveal(FlowState::take_frame);
            reveal(FlowState::take_frame_def);
            reveal(FlowState::move_on);
        }
        let ghost view = FlowItemView::Frame { frame: frame@, align, sticky, movable };
        let ghost roomy = self@;
        let height = frame.height();
        let in_last = self.regions.in_last();
        self.regions.size.y = self.regions.size.y.minus(height);
        if self.root && movable {
            let mut notes: Vec<Content> = Vec::new();
            collect_footnotes(&mut notes, &frame);
            self.items.push(FlowItem::Frame { frame, align, sticky, movable });
            proof {
                assert(item_views(self.items@) =~= roomy.items.push(view));
                assert(self@ =~= roomy.spend(height).push(view));
            }
            // When we are already in the last region, we can directly
            // force the footnotes.
            let fit = match self.handle_footnotes(&mut notes, true, in_last) {
                Err(e) => {
                    return Err(e);
                },
                Ok(fit) => fit,
            };
            if !fit {
                return self.move_on(&mut notes, height);
            }
            return Ok(());
        }
        self.items.push(FlowItem::Frame { frame, align, sticky, movable });
        proof {
            assert(item_views(self.items@) =~= roomy.items.push(view));
            assert(self@ =~= roomy.spend(height).push(view));
        }
        Ok(())
    }

    /// Docks a float in the current region.
    fn take_float(
        &mut self,
        frame: Frame,
        x_align: FixedAlignment,
        y_align: Smart<Option<FixedAlignment>>,
        delta: Axes<Rel>,
        clearance: Abs,
    ) -> (r: Result<(), LayoutError>)
        ensures
            model::ran(
                old(self)@,
                old(self)@.take_float(
                    FlowItemView::Placed {
                        frame: frame@,
                        x_align,
                        y_align,
                        delta,
                        float: true,
                        clearance,
                    },
                ),
                final(self)@,
                r,
            ),
        decreases old(self)@.engine.route.depth_left() + 1, old(self)@.budget(), 6nat, 0nat,
    {
        proof {
            reveal(FlowState::take_float);
            reveal(FlowState::take_float_def);
            reveal(FlowState::try_handle_footnotes);
        }
        let ghost view = FlowItemView::Placed {
            frame: frame@,
            x_align,
            y_align,
            delta,
            float: true,
            clearance,
        };
        // Select the farther placement, top or bottom.
        let mut frame = frame;
        let y_align = match y_align {
            Smart::Auto => Smart::Custom(
                Some(
                    float_align(
                        self.regions.size.y,
                        frame.height().plus(clearance),
                        self.regions.full,
                    ),
                ),
            ),
            Smart::Custom(given) => Smart::Custom(given),
        };
        // Add some clearance so that the float doesn't touch the main
        // content.
        frame.set_size(Size::new(frame.width(), frame.height().plus(clearance)));
        if y_align == Smart::Custom(Some(FixedAlignment::End)) {
            frame.translate(Point::with_y(clearance));
        }
        let ghost docked = FlowItemView::Placed {
            frame: frame@,
            x_align,
            y_align,
            delta,
            float: true,
            clearance,
        };
        assert(docked == old(self)@.docked(view));
        self.regions.size.y = self.regions.size.y.minus(frame.height());
        // Find footnotes in the frame.
        if self.root {
            let mut notes: Vec<Content> = Vec::new();
            collect_footnotes(&mut notes, &frame);
            match self.try_handle_footnotes(notes) {
                Err(e) => {
                    return Err(e);
                },
                Ok(()) => {},
            }
        }
        let ghost before = self@;
        self.items.push(FlowItem::Placed { frame, x_align, y_align, delta, float: true, clearance });
        proof {
            assert(item_views(self.items@) =~= before.items.push(docked));
            assert(self@ =~= before.push(docked));
        }
        Ok(())
    }

    /// Layout a finished frame.
    pub fn handle_item(&mut self, item: FlowItem) -> (r: Result<(), LayoutError>)
        ensures
            model::ran(old(self)@, old(self)@.handle_item(item@), final(self)@, r),
        decreases old(self)@.engine.route.depth_left() + 1, old(self)@.budget(), 7nat, 0nat,
    {
        proof {
            reveal(FlowState::handle_item);
            reveal(FlowState::handle_item_def);
            reveal(FlowState::make_room);
            reveal(FlowState::take_frame);
            reveal(FlowState::take_float);
        }
        let ghost view = item@;
        match item {
            FlowItem::Frame { frame, align, sticky, movable } => {
                match self.make_room(frame.height()) {
                    Err(e) => {
                        return Err(e);
                    },
                    Ok(()) => {},
                }
                self.take_frame(frame, align, sticky, movable)
            },
            FlowItem::Placed { frame, x_align, y_align, delta, float, clearance } => {
                if !float {
                    self.items.push(
                        FlowItem::Placed { frame, x_align, y_align, delta, float, clearance },
                    );
                    proof {
                        assert(item_views(self.items@) =~= old(self)@.items.push(view));
                        assert(self@ =~= old(self)@.push(view));
                    }
                    return Ok(());
                }
                // If there is a queued float in front or if the float
                // doesn't fit, queue it for the next region.

                if self.pending_floats.len() > 0 || (!self.regions.size.y.fits(
                    frame.height().plus(clearance),
                ) && !self.regions.in_last()) {
                    self.pending_floats.push(
                        FlowItem::Placed { frame, x_align, y_align, delta, float, clearance },
                    );
                    proof {
                        assert(item_views(self.pending_floats@) =~= old(self)@.pending_floats.push(
                            view,
                        ));
                        assert(self@ =~= FlowState {
                            pending_floats: old(self)@.pending_floats.push(view),
                            ..old(self)@
                        });
                    }
                    return Ok(());
                }
                self.take_float(frame, x_align, y_align, delta, clearance)
            },
            other => self.take_plain(other),
        }
    }
}

} // verus!
