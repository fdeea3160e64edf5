//! A single region yields a single frame: a flow that is laid out into one
//! region, which nothing follows, finishes no region before its end.

use crate::content::{
    BlockElem, Content, Elem, PlaceElem, Span, StyledElem, Styles, VElem,
};
use crate::engine::{Engine, LayoutError, MAX_LAYOUT_DEPTH};
use crate::frame::FrameView;
use crate::geom::{Abs, Axes, FixedAlignment};
use crate::items::FlowItemView;
use crate::model::{
    collect_footnotes, layout_block, layout_block_def, layout_fragment, layout_fragment_def,
    layout_frame, layout_frame_def, layout_placed, lines_of, note_body, realized, FlowState,
    Lines, Snapshot,
};
use crate::par::ParElem;
use crate::regions::{Region, RegionsView};
use vstd::prelude::*;

verus! {

impl RegionsView {
    /// Whether the current region is the only one.
    pub open spec fn is_single(self) -> bool {
        self.backlog.len() == 0 && self.last is None
    }
}

impl FlowState {
    /// Whether the flow is in its only region and no float is waiting.
    pub open spec fn settled(self) -> bool {
        self.regions.is_single() && self.pending_floats.len() == 0
    }

    /// Whether this state is settled and has finished as many frames as
    /// `prev`, which it follows.
    pub open spec fn stays(self, prev: FlowState) -> bool {
        self.settled() && self.finished.len() == prev.finished.len()
    }
}

/// Content that is laid out into a single region has a single frame.
pub proof fn law_single_region_single_frame(
    engine: Engine,
    content: Content,
    styles: Styles,
    regions: RegionsView,
)
    requires
        regions.is_single(),
    ensures
        layout_fragment(engine, content, styles, regions) matches Ok(frames) ==> frames.len()
            == 1,
    decreases engine.route.depth_left(), usize::MAX + 1, 0nat, 0nat, 0nat,
{
    reveal(layout_fragment);
    reveal(layout_fragment_def);
    reveal(FlowState::layout);
    let route = engine.route.extend();
    if route.within(MAX_LAYOUT_DEPTH) {
        let children = match *content.elem {
            Elem::Flow(flow) => flow.children@,
            _ => realized(content, styles),
        };
        lemma_layout(
            FlowState::new(Engine { route }, styles, content.span, children, regions),
            children,
        );
    }
}

/// The frame of content that is laid out into a single region is the only
/// frame of its layout.
pub proof fn law_frame_is_the_only_frame(
    engine: Engine,
    content: Content,
    styles: Styles,
    region: Region,
)
    ensures
        match layout_fragment(engine, content, styles, RegionsView::single(region)) {
            Ok(frames) => layout_frame(engine, content, styles, region) == Ok::<
                FrameView,
                LayoutError,
            >(frames[0]) && frames == seq![frames[0]],
            Err(e) => layout_frame(engine, content, styles, region) == Err::<
                FrameView,
                LayoutError,
            >(e),
        },
{
    reveal(layout_frame);
    reveal(layout_frame_def);
    reveal(layout_fragment);
    law_single_region_single_frame(engine, content, styles, RegionsView::single(region));
    match layout_fragment(engine, content, styles, RegionsView::single(region)) {
        Ok(frames) => {
            assert(frames =~= seq![frames[0]]);
        },
        Err(_) => {},
    }
}

/// A block that is laid out into a single region has a single frame.
pub(crate) proof fn lemma_layout_block(
    engine: Engine,
    block: BlockElem,
    styles: Styles,
    regions: RegionsView,
)
    requires
        regions.is_single(),
    ensures
        layout_block(engine, block, styles, regions) matches Ok(frames) ==> frames.len() == 1,
    decreases engine.route.depth_left(), usize::MAX + 2, 0nat, 0nat, 0nat,
{
    reveal(layout_block);
    reveal(layout_block_def);
    reveal(layout_fragment);
    law_single_region_single_frame(engine, block.body, styles, regions);
}

/// In a settled flow, `feed` finishes no region.
pub(crate) proof fn lemma_feed(state: FlowState, items: Seq<FlowItemView>, i: nat)
    requires
        state.settled(),
    ensures
        state.feed(items, i) matches Ok(next) ==> next.stays(state),
    decreases state.engine.route.depth_left() + 1, state.budget(), 8nat, items.len() - i, 0nat,
{
    reveal(FlowState::feed);
    reveal(FlowState::feed_def);
    reveal(FlowState::handle_item);
    if i < items.len() {
        let step = state.handle_item(items[i as int]);
        lemma_handle_item(state, items[i as int]);
        if step is Ok && step->Ok_0.follows(state) {
            lemma_feed(step->Ok_0, items, i + 1);
        }
    }
}

/// In a settled flow, `make_room` finishes no region.
pub(crate) proof fn lemma_make_room(state: FlowState, height: Abs)
    requires
        state.settled(),
    ensures
        state.make_room(height) == Ok::<FlowState, LayoutError>(state),
    decreases state.engine.route.depth_left() + 1, state.budget(), 6nat, 0nat, 0nat,
{
    reveal(FlowState::make_room);
    reveal(FlowState::make_room_def);

}

/// In a settled flow, `take_frame` finishes no region.
pub(crate) proof fn lemma_take_frame(state: FlowState, item: FlowItemView)
    requires
        state.settled(),
    ensures
        state.take_frame(item) matches Ok(next) ==> next.stays(state),
    decreases state.engine.route.depth_left() + 1, state.budget(), 6nat, 0nat, 0nat,
{
    reveal(FlowState::take_frame);
    reveal(FlowState::take_frame_def);
    let frame = item->Frame_frame;
    let with = state.spend(frame.size.y).push(item);
    if state.root && item->Frame_movable {
        lemma_handle_footnotes(with, collect_footnotes(Seq::empty(), frame), true);
    }
}

/// In a settled flow, `take_float` finishes no region.
pub(crate) proof fn lemma_take_float(state: FlowState, item: FlowItemView)
    requires
        state.settled(),
    ensures
        state.take_float(item) matches Ok(next) ==> next.stays(state),
    decreases state.engine.route.depth_left() + 1, state.budget(), 6nat, 0nat, 0nat,
{
    reveal(FlowState::take_float);
    reveal(FlowState::take_float_def);
    reveal(FlowState::try_handle_footnotes);
    let docked = state.docked(item);
    let spent = state.spend(docked->Placed_frame.size.y);
    if state.root {
        lemma_try_handle_footnotes(spent, collect_footnotes(Seq::empty(), docked->Placed_frame));
    }
}

/// In a settled flow, `handle_item` finishes no region.
pub(crate) proof fn lemma_handle_item(state: FlowState, item: FlowItemView)
    requires
        state.settled(),
    ensures
        state.handle_item(item) matches Ok(next) ==> next.stays(state),
    decreases state.engine.route.depth_left() + 1, state.budget(), 7nat, 0nat, 0nat,
{
    reveal(FlowState::handle_item);
    reveal(FlowState::handle_item_def);
    reveal(FlowState::make_room);
    reveal(FlowState::take_frame);
    reveal(FlowState::take_float);
    match item {
        FlowItemView::Frame { frame, .. } => {
            lemma_make_room(state, frame.size.y);
            lemma_take_frame(state, item);
        },
        FlowItemView::Placed { float, .. } => {
            if float {
                lemma_take_float(state, item);
            }
        },
        _ => {},
    }
}

/// In a settled flow, `try_handle_footnotes` finishes no region.
pub(crate) proof fn lemma_try_handle_footnotes(state: FlowState, notes: Seq<Content>)
    requires
        state.settled(),
    ensures
        state.try_handle_footnotes(notes) matches Ok(next) ==> next.stays(state),
    decreases state.engine.route.depth_left() + 1, state.budget(), 5nat, 0nat, 0nat,
{
    reveal(FlowState::try_handle_footnotes);
    reveal(FlowState::try_handle_footnotes_def);
    if state.root {
        lemma_handle_footnotes(state, notes, false);
    }
}

/// In a settled flow, `layout_footnote_separator` finishes no region.
pub(crate) proof fn lemma_layout_footnote_separator(state: FlowState)
    requires
        state.settled(),
    ensures
        state.layout_footnote_separator() matches Ok(next) ==> next.stays(state),
    decreases state.engine.route.depth_left() + 1, state.budget(), 0nat, 0nat, 0nat,
{
    reveal(FlowState::layout_footnote_separator);
    reveal(FlowState::layout_footnote_separator_def);

}

/// In a settled flow, `handle_footnotes` finishes no region.
pub(crate) proof fn lemma_handle_footnotes(state: FlowState, notes: Seq<Content>, movable: bool)
    requires
        state.settled(),
    ensures
        state.handle_footnotes(notes, movable, true) matches Ok(next) ==> next.state.stays(state) && next.fit,
    decreases state.engine.route.depth_left() + 1, state.budget(), 4nat, usize::MAX + 1, 0nat,
{
    reveal(FlowState::footnotes_from);
    lemma_footnotes_from(state, state.snapshot(notes), notes, 0);
}

/// In a settled flow, `footnotes_from` finishes no region.
pub(crate) proof fn lemma_footnotes_from(state: FlowState, snapshot: Snapshot, notes: Seq<Content>, k: nat)
    requires
        state.settled(),
    ensures
        state.footnotes_from(snapshot, notes, k, true) matches Ok(next) ==> next.state.stays(state) && next.fit,
    decreases state.engine.route.depth_left() + 1, state.budget(), 4nat, usize::MAX - k, 0nat,
{
    reveal(FlowState::footnotes_from);
    reveal(FlowState::footnotes_from_def);
    reveal(FlowState::handle_footnote);
    if k < notes.len() && notes.len() <= usize::MAX {
        let body = note_body(notes[k as int]);
        if body is None {
            lemma_footnotes_from(state, snapshot, notes, k + 1);
        } else {
            let step = state.handle_footnote(snapshot, notes, k, body->Some_0, true);
            lemma_handle_footnote(state, snapshot, notes, k, body->Some_0);
            if step is Ok && step->Ok_0.state.follows(state) {
                let done = step->Ok_0;
                lemma_footnotes_from(done.state, snapshot, done.notes, k + 1);
            }
        }
    }
}

/// In a settled flow, `handle_footnote` finishes no region.
pub(crate) proof fn lemma_handle_footnote(state: FlowState, snapshot: Snapshot, notes: Seq<Content>, k: nat, body: Content)
    requires
        state.settled(),
    ensures
        state.handle_footnote(snapshot, notes, k, body, true) matches Ok(next) ==> next.state.stays(state) && next.fit,
    decreases state.engine.route.depth_left() + 1, state.budget(), 3nat, 1nat, 0nat,
{
    reveal(FlowState::handle_footnote);
    reveal(FlowState::handle_footnote_def);
    reveal(FlowState::start_footnote);
    reveal(FlowState::end_footnote);
    let step = state.start_footnote();
    lemma_start_footnote(state);
    if step is Ok && step->Ok_0.follows(state) {
        let charged = step->Ok_0;
        let regions = charged.regions.with_root(false);
        reveal(layout_fragment);
        law_single_region_single_frame(state.engine, body, state.styles, regions);
        let frames = layout_fragment(state.engine, body, state.styles, regions);
        if frames is Ok {
            lemma_end_footnote(charged, snapshot, notes, k, frames->Ok_0);
        }
    }
}

/// In a settled flow, `start_footnote` finishes no region.
pub(crate) proof fn lemma_start_footnote(state: FlowState)
    requires
        state.settled(),
    ensures
        state.start_footnote() matches Ok(next) ==> next.stays(state),
    decreases state.engine.route.depth_left() + 1, state.budget(), 3nat, 0nat, 0nat,
{
    reveal(FlowState::start_footnote);
    reveal(FlowState::start_footnote_def);
    reveal(FlowState::layout_footnote_separator);
    if !state.has_footnotes {
        lemma_layout_footnote_separator(state);
    }
}

/// In a settled flow, `end_footnote` finishes no region.
pub(crate) proof fn lemma_end_footnote(state: FlowState, snapshot: Snapshot, notes: Seq<Content>, k: nat, frames: Seq<FrameView>)
    requires
        state.settled(),
        frames.len() <= 1,
    ensures
        state.end_footnote(snapshot, notes, k, frames, true) matches Ok(next) ==> next.state.stays(state) && next.fit,
    decreases state.engine.route.depth_left() + 1, state.budget(), 3nat, 0nat, 0nat,
{
    reveal(FlowState::end_footnote);
    reveal(FlowState::end_footnote_def);
    reveal(FlowState::place_entry);
    lemma_place_entry(state, notes, frames, 0);
}

/// In a settled flow, `place_entry` finishes no region.
pub(crate) proof fn lemma_place_entry(state: FlowState, notes: Seq<Content>, frames: Seq<FrameView>, i: nat)
    requires
        state.settled(),
        frames.len() <= 1,
    ensures
        state.place_entry(notes, frames, i) matches Ok(next) ==> next.state.stays(state) && next.fit,
    decreases state.engine.route.depth_left() + 1, state.budget(), 2nat, frames.len() - i + 1, 0nat,
{
    reveal(FlowState::place_entry);
    reveal(FlowState::place_entry_def);
    if i < frames.len() {
        let frame = frames[i as int];
        let placed = state.spend(frame.size.y).push(FlowItemView::Footnote(frame));
        lemma_place_entry(placed, collect_footnotes(notes, frame), frames, i + 1);
    }
}

/// In a settled flow, `migrate_until_fits` finishes no region.
pub(crate) proof fn lemma_migrate_until_fits(state: FlowState, height: Abs)
    requires
        state.settled(),
    ensures
        state.migrate_until_fits(height) == Ok::<FlowState, LayoutError>(state),
    decreases state.engine.route.depth_left() + 1, state.budget(), 10nat, 0nat, 0nat,
{
    reveal(FlowState::migrate_until_fits);
    reveal(FlowState::migrate_until_fits_def);

}

/// In a settled flow, `place_line` finishes no region.
pub(crate) proof fn lemma_place_line(state: FlowState, lines: Lines, i: nat)
    requires
        state.settled(),
    ensures
        state.place_line(lines, i) matches Ok(next) ==> next.stays(state),
    decreases state.engine.route.depth_left() + 1, state.budget(), 11nat, 0nat, 0nat,
{
    reveal(FlowState::place_line);
    reveal(FlowState::place_line_def);
    reveal(FlowState::handle_item);
    let spacing = FlowItemView::Absolute(lines.leading, true);
    if i > 0 {
        lemma_handle_item(state, spacing);
    }
    let led = if i > 0 {
        state.after(state.handle_item(spacing))
    } else {
        Ok(state)
    };
    if led is Ok {
        let led = led->Ok_0;
        let (tagged, frame) = led.drain_tag(lines.frames[i as int]);
        let item = FlowItemView::Frame { frame, align: lines.align, sticky: false, movable: true };
        lemma_handle_item(tagged, item);
    }
}

/// In a settled flow, `place_lines` finishes no region.
pub(crate) proof fn lemma_place_lines(state: FlowState, lines: Lines, i: nat)
    requires
        state.settled(),
    ensures
        state.place_lines(lines, i) matches Ok(next) ==> next.stays(state),
    decreases state.engine.route.depth_left() + 1, state.budget(), 12nat, lines.frames.len() - i, 0nat,
{
    reveal(FlowState::place_lines);
    reveal(FlowState::place_lines_def);
    reveal(FlowState::place_line);
    if i < lines.frames.len() {
        let step = state.place_line(lines, i);
        lemma_place_line(state, lines, i);
        if step is Ok && step->Ok_0.follows(state) {
            lemma_place_lines(step->Ok_0, lines, i + 1);
        }
    }
}

/// In a settled flow, `handle_par` finishes no region.
pub(crate) proof fn lemma_handle_par(state: FlowState, par: ParElem, styles: Styles)
    requires
        state.settled(),
    ensures
        state.handle_par(par, styles) matches Ok(next) ==> next.stays(state),
    decreases state.engine.route.depth_left() + 1, state.budget(), 13nat, 0nat, 0nat,
{
    reveal(FlowState::handle_par);
    reveal(FlowState::handle_par_def);
    reveal(FlowState::migrate_until_fits);
    reveal(FlowState::place_lines);
    let frames = lines_of(par, state.last_was_par, state.regions.base(), state.regions.expand.x);
    if frames.len() > 0 {
        lemma_migrate_until_fits(state, frames[0].size.y);
    }
    lemma_place_lines(state, Lines::new(frames, par, styles), 0);
}

/// In a settled flow, `place_block_frame` finishes no region.
pub(crate) proof fn lemma_place_block_frame(state: FlowState, frame: FrameView, align: Axes<FixedAlignment>, sticky: bool)
    requires
        state.settled(),
    ensures
        state.place_block_frame(frame, 0, align, sticky) matches Ok(next) ==> next.stays(state),
    decreases state.engine.route.depth_left() + 1, state.budget(), 11nat, 0nat, 0nat,
{
    reveal(FlowState::place_block_frame);
    reveal(FlowState::place_block_frame_def);
    reveal(FlowState::handle_item);
    let (tagged, frame) = state.drain_tag(frame);
    lemma_handle_item(tagged, FlowItemView::Frame { frame, align, sticky, movable: false });
}

/// In a settled flow, `place_block` finishes no region.
pub(crate) proof fn lemma_place_block(state: FlowState, frames: Seq<FrameView>, i: nat, notes: Seq<Content>, align: Axes<FixedAlignment>, sticky: bool)
    requires
        state.settled(),
        frames.len() <= 1,
    ensures
        state.place_block(frames, i, notes, align, sticky) matches Ok(next) ==> next.state.stays(state),
    decreases state.engine.route.depth_left() + 1, state.budget(), 12nat, frames.len() - i, 0nat,
{
    reveal(FlowState::place_block);
    reveal(FlowState::place_block_def);
    reveal(FlowState::place_block_frame);
    if i < frames.len() {
        let noted = if state.root {
            collect_footnotes(notes, frames[i as int])
        } else {
            notes
        };
        let step = state.place_block_frame(frames[i as int], i, align, sticky);
        lemma_place_block_frame(state, frames[i as int], align, sticky);
        if step is Ok && step->Ok_0.follows(state) {
            lemma_place_block(step->Ok_0, frames, i + 1, noted, align, sticky);
        }
    }
}

/// In a settled flow, `enter_block` finishes no region.
pub(crate) proof fn lemma_enter_block(state: FlowState, block: BlockElem)
    requires
        state.settled(),
    ensures
        state.enter_block(block) matches Ok(next) ==> next.stays(state),
    decreases state.engine.route.depth_left() + 1, state.budget(), 11nat, 0nat, 0nat,
{
    reveal(FlowState::enter_block);
    reveal(FlowState::enter_block_def);

}

/// A block in a settled flow is entered, laid out into one frame, and that
/// frame is placed.
pub(crate) proof fn lemma_block_is_placed(state: FlowState, block: BlockElem, styles: Styles)
    requires
        state.settled(),
    ensures
        state.after(state.enter_block(block)) matches Ok(fresh) ==> (layout_block(
            state.engine,
            block,
            styles,
            fresh.regions,
        ) matches Ok(frames) ==> (state.after_notes(
            fresh.place_block(frames, 0, Seq::empty(), styles.align, block.sticky),
        ) matches Ok(placed) ==> placed.state.stays(state))),
    decreases state.engine.route.depth_left() + 1, state.budget(), 13nat, 0nat, 0nat,
{
    let step = state.enter_block(block);
    lemma_enter_block(state, block);
    if step is Ok && step->Ok_0.follows(state) {
        let fresh = step->Ok_0;
        lemma_layout_block(state.engine, block, styles, fresh.regions);
        let frames = layout_block(state.engine, block, styles, fresh.regions);
        if frames is Ok {
            lemma_place_block(fresh, frames->Ok_0, 0, Seq::empty(), styles.align, block.sticky);
        }
    }
}

/// In a settled flow, `handle_block` finishes no region.
pub(crate) proof fn lemma_handle_block(state: FlowState, block: BlockElem, styles: Styles)
    requires
        state.settled(),
    ensures
        state.handle_block(block, styles) matches Ok(next) ==> next.stays(state),
    decreases state.engine.route.depth_left() + 1, state.budget(), 13nat, 1nat, 0nat,
{
    reveal(FlowState::handle_block);
    reveal(FlowState::handle_block_def);
    reveal(FlowState::enter_block);
    reveal(FlowState::place_block);
    reveal(FlowState::try_handle_footnotes);
    reveal(layout_block);
    lemma_block_is_placed(state, block, styles);
    let fresh = state.after(state.enter_block(block));
    if fresh is Ok {
        let frames = layout_block(state.engine, block, styles, fresh->Ok_0.regions);
        if frames is Ok {
            let placed = state.after_notes(
                fresh->Ok_0.place_block(
                    frames->Ok_0,
                    0,
                    Seq::empty(),
                    styles.align,
                    block.sticky,
                ),
            );
            if placed is Ok {
                lemma_try_handle_footnotes(placed->Ok_0.state, placed->Ok_0.notes);
            }
        }
    }
}

/// In a settled flow, `handle_place` finishes no region.
pub(crate) proof fn lemma_handle_place(state: FlowState, place: PlaceElem, span: Span, styles: Styles)
    requires
        state.settled(),
    ensures
        state.handle_place(place, span, styles) matches Ok(next) ==> next.stays(state),
    decreases state.engine.route.depth_left() + 1, state.budget(), 13nat, 0nat, 0nat,
{
    reveal(FlowState::handle_place);
    reveal(FlowState::handle_place_def);
    reveal(FlowState::handle_item);
    let frame = layout_placed(state.engine, place, span, styles, state.regions.base());
    if frame is Ok {
        lemma_handle_item(state, FlowState::placed_item(place, frame->Ok_0));
    }
}

/// In a settled flow, `handle_v` finishes no region.
pub(crate) proof fn lemma_handle_v(state: FlowState, v: VElem)
    requires
        state.settled(),
    ensures
        state.handle_v(v) matches Ok(next) ==> next.stays(state),
    decreases state.engine.route.depth_left() + 1, state.budget(), 13nat, 0nat, 0nat,
{
    reveal(FlowState::handle_v);
    reveal(FlowState::handle_v_def);
    reveal(FlowState::handle_item);
    lemma_handle_item(state, state.spacing_item(v));
}

/// In a settled flow, `handle_colbreak` finishes no region.
pub(crate) proof fn lemma_handle_colbreak(state: FlowState)
    requires
        state.settled(),
    ensures
        state.handle_colbreak() matches Ok(next) ==> next.stays(state),
    decreases state.engine.route.depth_left() + 1, state.budget(), 13nat, 0nat, 0nat,
{
    reveal(FlowState::handle_colbreak);
    reveal(FlowState::handle_colbreak_def);

}

/// In a settled flow, `flush_floats` finishes no region.
pub(crate) proof fn lemma_flush_floats(state: FlowState)
    requires
        state.settled(),
    ensures
        state.flush_floats() matches Ok(next) ==> next.stays(state),
    decreases state.engine.route.depth_left() + 1, state.budget(), 10nat, 0nat, 0nat,
{
    reveal(FlowState::flush_floats);
    reveal(FlowState::flush_floats_def);

}

/// In a settled flow, `handle_flush` finishes no region.
pub(crate) proof fn lemma_handle_flush(state: FlowState)
    requires
        state.settled(),
    ensures
        state.handle_flush() matches Ok(next) ==> next.stays(state),
    decreases state.engine.route.depth_left() + 1, state.budget(), 13nat, 0nat, 0nat,
{
    reveal(FlowState::handle_flush);
    reveal(FlowState::handle_flush_def);
    reveal(FlowState::feed);
    reveal(FlowState::flush_floats);
    let cleared = FlowState { pending_floats: Seq::empty(), ..state };
    lemma_feed(cleared, state.pending_floats, 0);
    let step = cleared.feed(state.pending_floats, 0);
    if step is Ok && step->Ok_0.follows(state) {
        lemma_flush_floats(step->Ok_0);
    }
}

/// In a settled flow, `handle_child` finishes no region.
pub(crate) proof fn lemma_handle_child(state: FlowState, child: StyledElem)
    requires
        state.settled(),
    ensures
        state.handle_child(child) matches Ok(next) ==> next.stays(state),
    decreases state.engine.route.depth_left() + 1, state.budget(), 14nat, 0nat, 0nat,
{
    reveal(FlowState::handle_child);
    reveal(FlowState::handle_child_def);
    reveal(FlowState::handle_v);
    reveal(FlowState::handle_colbreak);
    reveal(FlowState::handle_par);
    reveal(FlowState::handle_block);
    reveal(FlowState::handle_place);
    reveal(FlowState::handle_flush);
    match *child.child.elem {
        Elem::V(elem) => lemma_handle_v(state, elem),
        Elem::Colbreak(_) => lemma_handle_colbreak(state),
        Elem::Par(elem) => lemma_handle_par(state, elem, child.styles),
        Elem::Block(elem) => lemma_handle_block(state, elem, child.styles),
        Elem::Place(elem) => lemma_handle_place(state, elem, child.child.span, child.styles),
        Elem::Flush(_) => lemma_handle_flush(state),
        _ => {},
    }
}

/// In a settled flow, `handle_children` finishes no region.
pub(crate) proof fn lemma_handle_children(state: FlowState, children: Seq<StyledElem>, i: nat)
    requires
        state.settled(),
    ensures
        state.handle_children(children, i) matches Ok(next) ==> next.stays(state),
    decreases state.engine.route.depth_left() + 1, state.budget(), 15nat, children.len() - i, 0nat,
{
    reveal(FlowState::handle_children);
    reveal(FlowState::handle_children_def);
    reveal(FlowState::handle_child);
    if i < children.len() {
        let step = state.handle_child(children[i as int]);
        lemma_handle_child(state, children[i as int]);
        if step is Ok && step->Ok_0.follows(state) {
            lemma_handle_children(step->Ok_0, children, i + 1);
        }
    }
}

/// In a settled flow, `finish` finishes one region.
pub(crate) proof fn lemma_finish(state: FlowState)
    requires
        state.settled(),
    ensures
        state.finish() matches Ok(frames) ==> frames.len() == state.finished.len() + 1,
    decreases state.engine.route.depth_left() + 1, state.budget(), 16nat, 0nat, 0nat,
{
    reveal(FlowState::finish);
    reveal(FlowState::finish_def);
    reveal(FlowState::finish_backlog);
    reveal(FlowState::finish_backlog_def);
    reveal(FlowState::finish_region);
    reveal(FlowState::finish_region_def);
    reveal(FlowState::feed);
    reveal(FlowState::feed_def);
    reveal(FlowState::finish_items);
    reveal(FlowState::finish_items_def);
    let filled = if state.expand.y {
        state.after(state.finish_backlog())
    } else {
        Ok(state)
    };
    assert(filled == Ok::<FlowState, LayoutError>(state));
    let next = state.entered(true);
    if state.finish_region(true) is Ok {
        assert(state.finish_region(true) == Ok::<FlowState, LayoutError>(next));
        assert(next.finish_items() == Ok::<FlowState, LayoutError>(next));
    }
}

/// In a settled flow, `layout` finishes one region.
pub(crate) proof fn lemma_layout(state: FlowState, children: Seq<StyledElem>)
    requires
        state.settled(),
    ensures
        state.layout(children) matches Ok(frames) ==> frames.len() == state.finished.len() + 1,
    decreases state.engine.route.depth_left() + 1, state.budget(), 17nat, 0nat, 0nat,
{
    reveal(FlowState::layout);
    reveal(FlowState::layout_def);
    reveal(FlowState::handle_children);
    reveal(FlowState::finish);
    let step = state.handle_children(children, 0);
    lemma_handle_children(state, children, 0);
    if step is Ok && step->Ok_0.follows(state) {
        lemma_finish(step->Ok_0);
    }
}

} // verus!
