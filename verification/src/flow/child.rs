//! The children of a flow, kind by kind.

use crate::content::{BlockElem, Content, PlaceElem, Spacing, Span, Styles, VElem};
use crate::engine::LayoutError;
use crate::flow::{collect_footnotes, layout_inline, FlowLayouter};
use crate::frame::{frame_views, Frame};
use crate::geom::{Abs, Axes, FixedAlignment, Size, Smart};
use crate::items::{item_views, FlowItem, FlowItemView};
use crate::model;
use crate::model::{FlowState, Lines};
use crate::par::ParElem;
use vstd::prelude::*;

verus! {

impl<'a> FlowLayouter<'a> {
    /// Layout vertical spacing.
    pub fn handle_v(&mut self, v: &VElem) -> (r: Result<(), LayoutError>)
        ensures
            model::ran(old(self)@, old(self)@.handle_v(*v), final(self)@, r),
        decreases old(self)@.engine.route.depth_left() + 1, old(self)@.budget(), 13nat, 0nat,
    {
        proof {
            reveal(FlowState::handle_v);
            reveal(FlowState::handle_v_def);
            reveal(FlowState::handle_item);
        }
        let item = match v.amount {
            // Resolve the spacing relative to the current base height.
            Spacing::Rel(rel) => FlowItem::Absolute(rel.relative_to(self.initial.y), v.weakness > 0),
            Spacing::Fr(fr) => FlowItem::Fractional(fr),
        };
        self.handle_item(item)
    }

    /// Layout a column break.
    pub fn handle_colbreak(&mut self) -> (r: Result<(), LayoutError>)
        ensures
            model::ran(old(self)@, old(self)@.handle_colbreak(), final(self)@, r),
        decreases old(self)@.engine.route.depth_left() + 1, old(self)@.budget(), 13nat, 0nat,
    {
        proof {
            reveal(FlowState::handle_colbreak);
            reveal(FlowState::handle_colbreak_def);
            reveal(FlowState::finish_region);
        }
        // If there is still an available region, skip to it.
        if self.regions.may_progress() {
            self.finish_region(true)
        } else {
            Ok(())
        }
    }

    /// Places one line of a paragraph; `needed` is the height that must be
    /// free for it.
    fn place_line(
        &mut self,
        frame: Frame,
        i: usize,
        leading: Abs,
        align: Axes<FixedAlignment>,
        needed: Abs,
        Ghost(lines): Ghost<Lines>,
    ) -> (r: Result<(), LayoutError>)
        requires
            i < lines.frames.len(),
            lines.frames[i as int] == frame@,
            lines.leading == leading,
            lines.align == align,
            lines.needed(i as int) == needed,
        ensures
            model::ran(old(self)@, old(self)@.place_line(lines, i as nat), final(self)@, r),
        decreases old(self)@.engine.route.depth_left() + 1, old(self)@.budget(), 11nat, 0nat,
    {
        proof {
            reveal(FlowState::place_line);
            reveal(FlowState::place_line_def);
            reveal(FlowState::handle_item);
            reveal(FlowState::finish_region);
        }
        let mut frame = frame;
        if i > 0 {
            match self.handle_item(FlowItem::Absolute(leading, true)) {
                Err(e) => {
                    return Err(e);
                },
                Ok(()) => {},
            }
        }
        // If the line(s) don't fit into this region, but they do fit into
        // the next, then advance.

        let fits_next = match self.regions.at(1) {
            Some(region) => region.y.fits(needed),
            None => false,
        };
        if !self.regions.in_last() && !self.regions.size.y.fits(needed) && fits_next {
            match self.finish_region(false) {
                Err(e) => {
                    return Err(e);
                },
                Ok(()) => {},
            }
        }
        self.drain_tag(&mut frame);
        self.handle_item(FlowItem::Frame { frame, align, sticky: false, movable: true })
    }

    /// Places the lines of a paragraph, with the leading between them.
    fn place_lines(
        &mut self,
        frames: Vec<Frame>,
        leading: Abs,
        align: Axes<FixedAlignment>,
        prevent_orphans: bool,
        prevent_widows: bool,
    ) -> (r: Result<(), LayoutError>)
        ensures
            model::ran(
                old(self)@,
                old(self)@.place_lines(
                    Lines {
                        frames: frame_views(frames@),
                        leading,
                        align,
                        prevent_orphans,
                        prevent_widows,
                    },
                    0,
                ),
                final(self)@,
                r,
            ),
        decreases old(self)@.engine.route.depth_left() + 1, old(self)@.budget(), 12nat, frames@.len(),
    {
        proof {
            reveal(FlowState::place_lines);
            reveal(FlowState::place_lines_def);
            reveal(FlowState::place_line);
        }
        let ghost lines = Lines {
            frames: frame_views(frames@),
            leading,
            align,
            prevent_orphans,
            prevent_widows,
        };
        let mut rest = frames;
        let len = rest.len();
        let prevent_all = len == 3 && prevent_orphans && prevent_widows;
        // Store the heights of lines at the edges because we'll potentially
        // need these later when the lines are already moved.
        let front_1 = if len > 0 {
            rest[0].height()
        } else {
            Abs::zero()
        };
        let front_2 = if len > 1 {
            rest[1].height()
        } else {
            Abs::zero()
        };
        let back_2 = if len >= 2 {
            rest[len - 2].height()
        } else {
            front_1
        };
        let back_1 = if len >= 1 {
            rest[len - 1].height()
        } else {
            Abs::zero()
        };
        assert(forall|j: int| 0 <= j < len ==> frame_views(rest@)[j] == rest@[j]@);
        let mut i: usize = 0;
        while i < len
            invariant
                i <= len,
                len == rest@.len(),
                lines == (Lines {
                    frames: frame_views(frames@),
                    leading,
                    align,
                    prevent_orphans,
                    prevent_widows,
                }),
                lines.frames.len() == len,
                prevent_all == lines.prevent_all(),
                front_1 == model::height_at(lines.frames, 0),
                front_2 == model::height_at(lines.frames, 1),
                back_2 == model::height_at(lines.frames, if len >= 2 {
                    len - 2
                } else {
                    0
                }),
                back_1 == model::height_at(lines.frames, if len >= 1 {
                    len - 1
                } else {
                    0
                }),
                forall|j: int| i <= j < len ==> (#[trigger] rest@[j])@ == lines.frames[j],
                self@.follows(old(self)@),
                self@.place_lines(lines, i as nat) == old(self)@.place_lines(lines, 0),
            decreases len - i,
        {
            proof {
                reveal(FlowState::place_lines);
                reveal(FlowState::place_lines_def);
                reveal(FlowState::place_line);
            }
            let mut frame = Frame::soft(Size::zero());
            core::mem::swap(&mut rest[i], &mut frame);
            // To prevent widows and orphans, we require enough space for
            // - all lines if it's just three
            // - the first two lines if we're at the first line
            // - the last two lines if we're at the second to last line
            let needed = if prevent_all && i == 0 {
                front_1.plus(leading).plus(front_2).plus(leading).plus(back_1)
            } else if prevent_orphans && i == 0 {
                front_1.plus(leading).plus(front_2)
            } else if prevent_widows && i >= 2 && len - i == 2 {
                back_2.plus(leading).plus(back_1)
            } else {
                frame.height()
            };
            match self.place_line(frame, i, leading, align, needed, Ghost(lines)) {
                Err(e) => {
                    return Err(e);
                },
                Ok(()) => {},
            }
            i += 1;
        }
        Ok(())
    }

    /// Layout a paragraph.
    pub fn handle_par(&mut self, par: &ParElem, styles: &Styles) -> (r: Result<(), LayoutError>)
        ensures
            model::ran(old(self)@, old(self)@.handle_par(*par, *styles), final(self)@, r),
        decreases old(self)@.engine.route.depth_left() + 1, old(self)@.budget(), 13nat, 0nat,
    {
        proof {
            reveal(FlowState::handle_par);
            reveal(FlowState::handle_par_def);
            reveal(FlowState::migrate_until_fits);
            reveal(FlowState::place_lines);
        }
        // Lay out the paragraph into lines. This only depends on the base
        // size, not on the vertical position.
        let lines = layout_inline(par, self.last_was_par, self.regions.base(), self.regions.expand.x);
        assert(forall|j: int| 0 <= j < lines@.len() ==> frame_views(lines@)[j] == lines@[j]@);

        // If the first line doesn't fit in this region, then defer any
        // previous sticky frame to the next region (if available).
        if lines.len() > 0 {
            match self.migrate_until_fits(lines[0].height()) {
                Err(e) => {
                    return Err(e);
                },
                Ok(()) => {},
            }
        }
        // Determine whether to prevent widows and orphans.

        let len = lines.len();
        let prevent_orphans = styles.costs.orphan.is_positive() && len >= 2 && !lines[1].is_empty();
        let prevent_widows = styles.costs.widow.is_positive() && len >= 2 && !lines[len
            - 2].is_empty();
        assert(Lines::new(frame_views(lines@), *par, *styles) == Lines {
            frames: frame_views(lines@),
            leading: par.leading,
            align: styles.align,
            prevent_orphans,
            prevent_widows,
        });
        match self.place_lines(lines, par.leading, styles.align, prevent_orphans, prevent_widows) {
            Err(e) => {
                return Err(e);
            },
            Ok(()) => {},
        }
        let ghost placed = self@;
        self.last_was_par = true;
        assert(self@ =~= FlowState { last_was_par: true, ..placed });
        Ok(())
    }

    /// Places one frame of a block.
    fn place_block_frame(
        &mut self,
        frame: Frame,
        i: usize,
        align: Axes<FixedAlignment>,
        sticky: bool,
    ) -> (r: Result<(), LayoutError>)
        ensures
            model::ran(
                old(self)@,
                old(self)@.place_block_frame(frame@, i as nat, align, sticky),
                final(self)@,
                r,
            ),
        decreases old(self)@.engine.route.depth_left() + 1, old(self)@.budget(), 11nat, 0nat,
    {
        proof {
            reveal(FlowState::place_block_frame);
            reveal(FlowState::place_block_frame_def);
            reveal(FlowState::handle_item);
            reveal(FlowState::finish_region);
        }
        let mut frame = frame;
        if i > 0 {
            match self.finish_region(false) {
                Err(e) => {
                    return Err(e);
                },
                Ok(()) => {},
            }
        }
        self.drain_tag(&mut frame);
        self.handle_item(FlowItem::Frame { frame, align, sticky, movable: false })
    }

    /// Places the frames of a block, one for each region, and collects the
    /// footnotes that the root flow finds in them.
    fn place_block(
        &mut self,
        frames: Vec<Frame>,
        notes: &mut Vec<Content>,
        align: Axes<FixedAlignment>,
        sticky: bool,
    ) -> (r: Result<(), LayoutError>)
        ensures
            match old(self)@.place_block(frame_views(frames@), 0, old(notes)@, align, sticky) {
                Ok(next) => r is Ok && final(self)@ == next.state && final(notes)@ == next.notes
                    && final(self)@.follows(old(self)@),
                Err(e) => r == Err::<(), LayoutError>(e),
            },
        decreases old(self)@.engine.route.depth_left() + 1, old(self)@.budget(), 12nat, frames@.len(),
    {
        proof {
            reveal(FlowState::place_block);
            reveal(FlowState::place_block_def);
            reveal(FlowState::place_block_frame);
        }
        let ghost all = frame_views(frames@);
        let mut rest = frames;
        let len = rest.len();
        assert(forall|j: int| 0 <= j < len ==> frame_views(rest@)[j] == rest@[j]@);
        let mut i: usize = 0;
        while i < len
            invariant
                i <= len,
                len == rest@.len(),
                all == frame_views(frames@),
                all.len() == len,
                forall|j: int| i <= j < len ==> (#[trigger] rest@[j])@ == all[j],
                self@.follows(old(self)@),
                self@.place_block(all, i as nat, notes@, align, sticky) == old(self)@.place_block(
                    all,
                    0,
                    old(notes)@,
                    align,
                    sticky,
                ),
            decreases len - i,
        {
            proof {
                reveal(FlowState::place_block);
                reveal(FlowState::place_block_def);
                reveal(FlowState::place_block_frame);
            }
            let mut frame = Frame::soft(Size::zero());
            core::mem::swap(&mut rest[i], &mut frame);
            // Find footnotes in the frame.
            if self.root {
                collect_footnotes(notes, &frame);
            }
            match self.place_block_frame(frame, i, align, sticky) {
                Err(e) => {
                    return Err(e);
                },
                Ok(()) => {},
            }
            i += 1;
        }
        Ok(())
    }

    /// Gets ready to lay out a block.
    fn enter_block(&mut self, block: &BlockElem) -> (r: Result<(), LayoutError>)
        ensures
            model::ran(old(self)@, old(self)@.enter_block(*block), final(self)@, r),
        decreases old(self)@.engine.route.depth_left() + 1, old(self)@.budget(), 11nat, 0nat,
    {
        proof {
            reveal(FlowState::enter_block);
            reveal(FlowState::enter_block_def);
            reveal(FlowState::finish_region);
        }
        // If the block is "rootable" it may host footnotes. In that case,
        // we defer rootness to it temporarily. We disable our own rootness
        // to prevent duplicate footnotes.
        if self.root && block.rootable {
            self.root = false;
            self.regions.root = true;
        }
        // Skip directly if region is already full.

        if self.regions.is_full() {
            self.finish_region(false)
        } else {
            Ok(())
        }
    }

    /// Layout into multiple regions.
    pub fn handle_block(&mut self, block: &BlockElem, styles: &Styles) -> (r: Result<
        (),
        LayoutError,
    >)
        ensures
            model::ran(old(self)@, old(self)@.handle_block(*block, *styles), final(self)@, r),
        decreases old(self)@.engine.route.depth_left() + 1, old(self)@.budget(), 13nat, 0nat,
    {
        proof {
            reveal(FlowState::handle_block);
            reveal(FlowState::handle_block_def);
            reveal(FlowState::enter_block);
            reveal(FlowState::place_block);
            reveal(FlowState::try_handle_footnotes);
            reveal(model::layout_block);
        }
        let is_root = self.root;
        match self.enter_block(block) {
            Err(e) => {
                return Err(e);
            },
            Ok(()) => {},
        }
        // Layout the block itself.

        let frames = match block.layout(self.engine, styles, self.regions.clone()) {
            Err(e) => {
                return Err(e);
            },
            Ok(frames) => frames,
        };
        let mut notes: Vec<Content> = Vec::new();
        match self.place_block(frames, &mut notes, styles.align, block.sticky) {
            Err(e) => {
                return Err(e);
            },
            Ok(()) => {},
        }
        match self.try_handle_footnotes(notes) {
            Err(e) => {
                return Err(e);
            },
            Ok(()) => {},
        }
        let ghost next = self@;
        self.root = is_root;
        self.regions.root = false;
        self.last_was_par = false;
        assert(self@ =~= FlowState {
            root: old(self)@.root,
            regions: next.regions.with_root(false),
            last_was_par: false,
            ..next
        });
        Ok(())
    }

    /// Layout a placed element.
    pub fn handle_place(&mut self, place: &PlaceElem, span: Span, styles: &Styles) -> (r: Result<
        (),
        LayoutError,
    >)
        ensures
            model::ran(old(self)@, old(self)@.handle_place(*place, span, *styles), final(self)@, r),
        decreases old(self)@.engine.route.depth_left() + 1, old(self)@.budget(), 13nat, 0nat,
    {
        proof {
            reveal(FlowState::handle_place);
            reveal(FlowState::handle_place_def);
            reveal(FlowState::handle_item);
            reveal(model::layout_placed);
        }
        let x_align = match place.alignment {
            Smart::Auto => FixedAlignment::Center,
            Smart::Custom(alignment) => match alignment.x {
                Some(x) => x,
                None => FixedAlignment::Start,
            },
        };
        let y_align = match place.alignment {
            Smart::Auto => Smart::Auto,
            Smart::Custom(alignment) => Smart::Custom(alignment.y),
        };
        let frame = match place.layout(self.engine, span, styles, self.regions.base()) {
            Err(e) => {
                return Err(e);
            },
            Ok(frame) => frame,
        };
        self.handle_item(
            FlowItem::Placed {
                frame,
                x_align,
                y_align,
                delta: Axes { x: place.dx, y: place.dy },
                float: place.float,
                clearance: place.clearance,
            },
        )
    }

    /// Lays out all floating elements before continuing with other content.
    pub fn handle_flush(&mut self) -> (r: Result<(), LayoutError>)
        ensures
            model::ran(old(self)@, old(self)@.handle_flush(), final(self)@, r),
        decreases old(self)@.engine.route.depth_left() + 1, old(self)@.budget(), 13nat, 0nat,
    {
        proof {
            reveal(FlowState::handle_flush);
            reveal(FlowState::handle_flush_def);
            reveal(FlowState::flush_floats);
            reveal(FlowState::flush_floats_def);
            reveal(FlowState::feed);
        }
        let mut floats: Vec<FlowItem> = Vec::new();
        core::mem::swap(&mut floats, &mut self.pending_floats);
        proof {
            assert(item_views(self.pending_floats@) =~= Seq::<FlowItemView>::empty());
            assert(self@ =~= FlowState { pending_floats: Seq::empty(), ..old(self)@ });
        }
        match self.feed(floats) {
            Err(e) => {
                return Err(e);
            },
            Ok(()) => {},
        }
        let ghost fed = self@;
        while self.pending_floats.len() > 0
            invariant
                fed.follows(old(self)@),
                old(self)@.handle_flush() == fed.flush_floats(),
                self@.follows(fed),
                self@.flush_floats() == fed.flush_floats(),
            decreases self@.budget(),
        {
            proof {
                reveal(FlowState::flush_floats);
                reveal(FlowState::flush_floats_def);
                reveal(FlowState::finish_region);
            }
            match self.finish_region(false) {
                Err(e) => {
                    return Err(e);
                },
                Ok(()) => {},
            }
        }
        Ok(())
    }
}

} // verus!
