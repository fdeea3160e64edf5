//! Layout of content into regions.

use crate::content::{BlockElem, Content, Elem, PlaceElem, Span, Styles};
use crate::engine::{Engine, LayoutError, MAX_LAYOUT_DEPTH};
use crate::flow::{realize_flow, FlowLayouter};
use crate::frame::{frame_views, Frame};
use crate::geom::{Axes, FixedAlignment, Size, Smart};
use crate::model;
use crate::model::FlowState;
use crate::regions::{Region, Regions};
use vstd::prelude::*;

verus! {

/// Lays out content into a single region. The layout of a single region has
/// a single frame, and that is the frame that comes back.
pub fn layout_frame(engine: &Engine, content: &Content, styles: &Styles, region: Region) -> (r:
    Result<Frame, LayoutError>)
    ensures
        match model::layout_frame(*engine, *content, *styles, region) {
            Ok(frame) => r is Ok && r->Ok_0@ == frame,
            Err(e) => r is Err && r->Err_0 == e,
        },
    decreases engine.route.depth_left(), usize::MAX + 2, 0nat, 0nat,
{
    proof {
        reveal(model::layout_frame);
        reveal(model::layout_frame_def);
        reveal(model::layout_fragment);
    }
    match layout_fragment(engine, content, styles, Regions::single(region)) {
        Err(e) => Err(e),
        Ok(mut frames) => {
            assert(frame_views(frames@)[0] == frames@[0]@);
            Ok(frames.swap_remove(0))
        },
    }
}

/// Lays out content into multiple regions.
///
/// When just laying out into a single region, prefer [`layout_frame`].
pub fn layout_fragment(engine: &Engine, content: &Content, styles: &Styles, regions: Regions) -> (r:
    Result<Vec<Frame>, LayoutError>)
    ensures
        model::laid_out(model::layout_fragment(*engine, *content, *styles, regions@), r),
        r matches Ok(frames) ==> frames@.len() >= 1,
    decreases engine.route.depth_left(), usize::MAX + 1, 0nat, 0nat,
{
    proof {
        reveal(model::layout_fragment);
        reveal(model::layout_fragment_def);
        reveal(FlowState::layout);
    }
    let route = engine.route.extend();
    if !route.within(MAX_LAYOUT_DEPTH) {
        return Err(LayoutError::MaxLayoutDepth(content.span));
    }
    let engine = Engine { route };
    match &*content.elem {
        Elem::Flow(flow) => FlowLayouter::new(&engine, flow, content.span, styles, regions).layout(),
        _ => {
            let flow = realize_flow(content, styles);
            FlowLayouter::new(&engine, &flow, content.span, styles, regions).layout()
        },
    }
}

impl BlockElem {
    /// Lays out the block into the regions: the frames of its body.
    pub fn layout(&self, engine: &Engine, styles: &Styles, regions: Regions) -> (r: Result<
        Vec<Frame>,
        LayoutError,
    >)
        ensures
            model::laid_out(model::layout_block(*engine, *self, *styles, regions@), r),
            r matches Ok(frames) ==> frames@.len() >= 1,
        decreases engine.route.depth_left(), usize::MAX + 2, 0nat, 0nat,
    {
        proof {
            reveal(model::layout_block);
            reveal(model::layout_block_def);
            reveal(model::layout_fragment);
        }
        layout_fragment(engine, &self.body, styles, regions)
    }
}

impl PlaceElem {
    /// Lays out the placed content in a region of the size of `base`. A
    /// float must be aligned automatically, at the top or at the bottom;
    /// the error for one that is not is about `span`, where the element
    /// comes from.
    pub fn layout(&self, engine: &Engine, span: Span, styles: &Styles, base: Size) -> (r: Result<
        Frame,
        LayoutError,
    >)
        ensures
            match model::layout_placed(*engine, *self, span, *styles, base) {
                Ok(frame) => r is Ok && r->Ok_0@ == frame,
                Err(e) => r is Err && r->Err_0 == e,
            },
        decreases engine.route.depth_left(), usize::MAX + 3, 0nat, 0nat,
    {
        proof {
            reveal(model::layout_placed);
            reveal(model::layout_placed_def);
            reveal(model::layout_frame);
        }
        let misplaced = self.float && match self.alignment {
            Smart::Custom(alignment) => match alignment.y {
                None => true,
                Some(FixedAlignment::Center) => true,
                Some(_) => false,
            },
            Smart::Auto => false,
        };
        if misplaced {
            return Err(LayoutError::FloatPlacement(span));
        }
        layout_frame(engine, &self.body, styles, Region::new(base, Axes { x: false, y: false }))
    }
}

impl<'a> FlowLayouter<'a> {
    /// Layout the flow.
    pub fn layout(self) -> (r: Result<Vec<Frame>, LayoutError>)
        ensures
            model::laid_out(self@.layout(self.flow.children@), r),
            r matches Ok(frames) ==> frames@.len() >= 1,
        decreases self@.engine.route.depth_left() + 1, self@.budget(), 17nat, 0nat,
    {
        let mut this = self;
        let flow = this.flow;
        let ghost start = this@;
        let ghost children = flow.children@;
        proof {
            reveal(FlowState::layout);
            reveal(FlowState::layout_def);
            reveal(FlowState::handle_children);
            reveal(FlowState::handle_children_def);
            reveal(FlowState::finish);
        }
        let mut i: usize = 0;
        while i < flow.children.len()
            invariant
                i <= flow.children.len(),
                children == flow.children@,
                flow == self.flow,
                start == self@,
                this@.follows(start),
                this@.handle_children(children, i as nat) == start.handle_children(children, 0),
            decreases flow.children.len() - i,
        {
            proof {
                reveal(FlowState::layout);
                reveal(FlowState::layout_def);
                reveal(FlowState::handle_children);
                reveal(FlowState::handle_children_def);
                reveal(FlowState::handle_child);
                reveal(FlowState::handle_child_def);
                reveal(FlowState::handle_v);
                reveal(FlowState::handle_colbreak);
                reveal(FlowState::handle_par);
                reveal(FlowState::handle_block);
                reveal(FlowState::handle_place);
                reveal(FlowState::handle_flush);
            }
            let ghost pre = this@;
            let child = &flow.children[i];
            let done = match &*child.child.elem {
                Elem::Tag(elem) => {
                    this.handle_tag(&elem.tag);
                    Ok(())
                },
                Elem::V(elem) => this.handle_v(elem),
                Elem::Colbreak(_) => this.handle_colbreak(),
                Elem::Par(elem) => this.handle_par(elem, &child.styles),
                Elem::Block(elem) => this.handle_block(elem, &child.styles),
                Elem::Place(elem) => this.handle_place(elem, child.child.span, &child.styles),
                Elem::Flush(_) => this.handle_flush(),
                _ => Err(LayoutError::UnexpectedFlowChild(child.child.span)),
            };
            match done {
                Err(e) => {
                    assert(pre.handle_child(children[i as int]) == Err::<FlowState, LayoutError>(e));
                    return Err(e);
                },
                Ok(()) => {
                    assert(pre.handle_child(children[i as int]) == Ok::<FlowState, LayoutError>(
                        this@,
                    ));
                },
            }
            i += 1;
        }
        this.finish()
    }

    /// Finish layouting and return the resulting fragment.
    pub fn finish(self) -> (r: Result<Vec<Frame>, LayoutError>)
        ensures
            model::laid_out(self@.finish(), r),
            r matches Ok(frames) ==> frames@.len() >= 1,
        decreases self@.engine.route.depth_left() + 1, self@.budget(), 16nat, 0nat,
    {
        let mut this = self;
        let ghost start = this@;
        proof {
            reveal(FlowState::finish);
            reveal(FlowState::finish_def);
            reveal(FlowState::finish_backlog);
            reveal(FlowState::finish_backlog_def);
            reveal(FlowState::finish_items);
            reveal(FlowState::finish_items_def);
            reveal(FlowState::finish_region);
        }
        if this.expand.y {
            while this.regions.backlog.len() > 0
                invariant
                    start == self@,
                    start.expand.y,
                    this@.follows(start),
                    this@.finish_backlog() == start.finish_backlog(),
                decreases this@.budget(),
            {
                proof {
                    reveal(FlowState::finish);
                    reveal(FlowState::finish_def);
                    reveal(FlowState::finish_backlog);
                    reveal(FlowState::finish_backlog_def);
                    reveal(FlowState::finish_region);
                }
                match this.finish_region(true) {
                    Err(e) => {
                        return Err(e);
                    },
                    Ok(()) => {},
                }
            }
        }
        let ghost filled = this@;
        assert(start.expand.y ==> start.finish_backlog() == Ok::<FlowState, LayoutError>(filled));
        match this.finish_region(true) {
            Err(e) => {
                return Err(e);
            },
            Ok(()) => {},
        }
        let ghost last = this@;
        while this.items.len() > 0
            invariant
                start == self@,
                last.follows(start),
                start.finish() == match last.finish_items() {
                    Ok(done) => Ok::<Seq<crate::frame::FrameView>, LayoutError>(done.finished),
                    Err(e) => Err(e),
                },
                this@.follows(last),
                this.finished@.len() >= 1,
                this@.finish_items() == last.finish_items(),
            decreases this@.budget(),
        {
            proof {
                reveal(FlowState::finish_items);
                reveal(FlowState::finish_items_def);
                reveal(FlowState::finish_region);
            }
            match this.finish_region(true) {
                Err(e) => {
                    return Err(e);
                },
                Ok(()) => {},
            }
        }
        assert(last.finish_items() == Ok::<FlowState, LayoutError>(this@));
        Ok(this.finished)
    }
}

} // verus!
