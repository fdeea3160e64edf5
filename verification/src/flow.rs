//! Layout of content inside of a container, into a frame or into several:
//! the flow layouter.

use crate::content::{Content, Elem, FlowElem, Spacing, Span, StyledElem, Styles, Tag};
use crate::engine::Engine;
use crate::frame::{frame_views, lemma_frame_items, Frame, FrameItem};
use crate::geom::{Abs, Axes, FixedAlignment, Point, Size};
use crate::items::{item_views, FlowItem};
use crate::model;
use crate::model::FlowState;
use crate::par::ParElem;
use crate::regions::Regions;
use vstd::prelude::*;

pub mod child;
pub mod footnote;
pub mod fragment;
pub mod item;
pub mod region;

verus! {

/// Performs flow layout.
pub struct FlowLayouter<'a> {
    /// The engine.
    pub engine: &'a Engine,
    /// The children that will be arranged into a flow.
    pub flow: &'a FlowElem,
    /// Whether this is the root flow.
    pub root: bool,
    /// The place in the source that the flow comes from.
    pub span: Span,
    /// The styles of the flow.
    pub styles: &'a Styles,
    /// The regions to lay out children into.
    pub regions: Regions,
    /// Whether the flow should expand to fill the region.
    pub expand: Axes<bool>,
    /// The size that the current region had before anything was taken from
    /// it.
    pub initial: Size,
    /// Whether the last block was a paragraph.
    pub last_was_par: bool,
    /// Spacing and laid-out blocks for the current region.
    pub items: Vec<FlowItem>,
    /// A queue of tags that will be attached to the next frame.
    pub pending_tags: Vec<Tag>,
    /// A queue of floating elements.
    pub pending_floats: Vec<FlowItem>,
    /// Whether we have any footnotes in the current region.
    pub has_footnotes: bool,
    /// Finished frames for previous regions.
    pub finished: Vec<Frame>,
}

impl<'a> View for FlowLayouter<'a> {
    type V = FlowState;

    open spec fn view(&self) -> FlowState {
        FlowState {
            engine: *self.engine,
            styles: *self.styles,
            span: self.span,
            root: self.root,
            regions: self.regions@,
            expand: self.expand,
            initial: self.initial,
            last_was_par: self.last_was_par,
            items: item_views(self.items@),
            pending_tags: self.pending_tags@,
            pending_floats: item_views(self.pending_floats@),
            has_footnotes: self.has_footnotes,
            finished: frame_views(self.finished@),
        }
    }
}

/// Whether a note with this location is among the notes.
pub(crate) fn has_note(notes: &Vec<Content>, location: Option<crate::content::Location>) -> (r: bool)
    ensures
        r == model::has_note(notes@, location),
{
    let mut i: usize = 0;
    while i < notes.len()
        invariant
            i <= notes.len(),
            forall|j: int| 0 <= j < i ==> (#[trigger] notes@[j]).location != location,
        decreases notes.len() - i,
    {
        if notes[i].location == location {
            return true;
        }
        i += 1;
    }
    false
}

/// Collects all footnotes in a frame: every footnote that is tagged in it
/// or in a frame inside it is added to the notes, unless a note with its
/// location is among them already.
pub fn collect_footnotes(notes: &mut Vec<Content>, frame: &Frame)
    ensures
        final(notes)@ == model::collect_footnotes(old(notes)@, frame@),
        final(notes)@.len() >= old(notes)@.len(),
    decreases frame,
{
    proof {
        lemma_frame_items(*frame);
    }
    let mut i: usize = 0;
    while i < frame.items.len()
        invariant
            i <= frame.items.len(),
            frame@.items.len() == frame.items@.len(),
            forall|j: int|
                0 <= j < frame.items@.len() ==> #[trigger] frame@.items[j] == (
                    frame.items@[j].0,
                    frame.items@[j].1@,
                ),
            notes@ == model::collect_in_items(old(notes)@, frame@.items, i as nat),
            notes@.len() >= old(notes)@.len(),
        decreases frame.items.len() - i,
    {
        assert(frame@.items[i as int].1 == frame.items@[i as int].1@);
        match &frame.items[i].1 {
            FrameItem::Group(group) => {
                collect_footnotes(notes, group);
            },
            FrameItem::Tag(tag) => {
                if !has_note(notes, tag.elem.location) {
                    match &*tag.elem.elem {
                        Elem::Footnote(_) => {
                            notes.push(tag.elem.clone());
                        },
                        _ => {},
                    }
                }
            },
            _ => {},
        }
        i += 1;
    }
}

/// Turns content into a flow: the children of a sequence, or the content
/// alone, each with the styles that it brings and otherwise with `styles`.
pub fn realize_flow(content: &Content, styles: &Styles) -> (r: FlowElem)
    ensures
        r.children@ == model::realized(*content, *styles),
{
    let mut children: Vec<StyledElem> = Vec::new();
    match &*content.elem {
        Elem::Sequence(parts) => {
            let mut i: usize = 0;
            while i < parts.len()
                invariant
                    i <= parts.len(),
                    children@.len() == i,
                    forall|j: int|
                        0 <= j < i ==> #[trigger] children@[j] == model::realized_child(
                            parts@[j],
                            *styles,
                        ),
                decreases parts.len() - i,
            {
                children.push(realize_child(&parts[i], styles));
                i += 1;
            }
            assert(children@ =~= model::realized(*content, *styles));
        },
        _ => {
            children.push(realize_child(content, styles));
            assert(children@ =~= model::realized(*content, *styles));
        },
    }
    FlowElem { children }
}

/// Turns content into a child of a flow.
pub(crate) fn realize_child(content: &Content, styles: &Styles) -> (r: StyledElem)
    ensures
        r == model::realized_child(*content, *styles),
{
    match &*content.elem {
        Elem::Styled(styled) => styled.clone(),
        _ => StyledElem { child: content.clone(), styles: styles.clone() },
    }
}

/// Lays out the lines of a paragraph: each line becomes a frame, as wide
/// as the base where the paragraph expands and the base is finite; the
/// first line is indented where the paragraph follows another, all other
/// lines by the hanging indent.
pub fn layout_inline(par: &ParElem, consecutive: bool, base: Size, expand: bool) -> (r: Vec<Frame>)
    ensures
        frame_views(r@) == model::lines_of(*par, consecutive, base, expand),
{
    let mut lines: Vec<Frame> = Vec::new();
    let mut i: usize = 0;
    while i < par.children.len()
        invariant
            i <= par.children.len(),
            lines@.len() == i,
            forall|j: int|
                0 <= j < i ==> (#[trigger] lines@[j])@ == model::line_of(
                    *par,
                    j,
                    consecutive,
                    base,
                    expand,
                ),
        decreases par.children.len() - i,
    {
        let mut line = par.children[i].clone();
        let width = if expand && base.x.is_finite() {
            base.x
        } else {
            line.width()
        };
        let indent = if i == 0 {
            if consecutive {
                par.first_line_indent
            } else {
                Abs::zero()
            }
        } else {
            par.hanging_indent
        };
        line.set_size(Size::new(width, line.height()));
        line.translate(Point::with_x(indent));
        lines.push(line);
        i += 1;
    }
    assert(frame_views(lines@) =~= model::lines_of(*par, consecutive, base, expand));
    lines
}

/// Whether one of the items is a frame of the flow.
pub(crate) fn has_frame(items: &Vec<FlowItem>) -> (r: bool)
    ensures
        r == crate::items::has_frame(item_views(items@)),
{
    let mut i: usize = 0;
    while i < items.len()
        invariant
            i <= items.len(),
            forall|j: int| 0 <= j < i ==> !((#[trigger] item_views(items@)[j]) is Frame),
        decreases items.len() - i,
    {
        match &items[i] {
            FlowItem::Frame { .. } => {
                assert(item_views(items@)[i as int] is Frame);
                return true;
            },
            _ => {},
        }
        i += 1;
    }
    false
}

/// Whether every item is out of the flow.
pub(crate) fn all_out_of_flow(items: &Vec<FlowItem>) -> (r: bool)
    ensures
        r == crate::items::all_out_of_flow(item_views(items@)),
{
    let mut i: usize = 0;
    while i < items.len()
        invariant
            i <= items.len(),
            forall|j: int| 0 <= j < i ==> (#[trigger] item_views(items@)[j]).is_out_of_flow(),
        decreases items.len() - i,
    {
        if !items[i].is_out_of_flow() {
            assert(!item_views(items@)[i as int].is_out_of_flow());
            return false;
        }
        i += 1;
    }
    true
}

/// Where the sticky frames at the end of the items start.
pub(crate) fn sticky_start(items: &Vec<FlowItem>) -> (r: usize)
    ensures
        r == model::sticky_start(item_views(items@)),
        r <= items@.len(),
{
    let mut sticky: usize = items.len();
    let mut i: usize = items.len();
    while i > 0
        invariant
            i <= items.len(),
            sticky <= items.len(),
            model::sticky_scan(item_views(items@), i as nat, sticky as nat) == model::sticky_start(
                item_views(items@),
            ),
        ensures
            sticky <= items.len(),
            sticky == model::sticky_start(item_views(items@)),
        decreases i,
    {
        assert(item_views(items@)[i - 1] == items@[i - 1]@);
        match &items[i - 1] {
            FlowItem::Absolute(_, _) => {},
            FlowItem::Frame { sticky: stuck, .. } => {
                if *stuck {
                    sticky = i - 1;
                } else {
                    break;
                }
            },
            _ => {
                break;
            },
        }
        i -= 1;
    }
    sticky
}

/// Which way an automatic float is docked.
pub(crate) fn float_align(remaining: Abs, height: Abs, full: Abs) -> (r: FixedAlignment)
    ensures
        r == model::float_align(remaining, height, full),
{
    if !full.is_finite() || !height.is_finite() {
        FixedAlignment::Start
    } else if !remaining.is_finite() {
        FixedAlignment::End
    } else if 2 * (remaining.raw as i128) - (height.raw as i128) > full.raw as i128 {
        FixedAlignment::End
    } else {
        FixedAlignment::Start
    }
}

/// Moves the last `nested` notes to directly behind the first `k`.
pub(crate) fn rotate_notes(notes: &mut Vec<Content>, k: usize, nested: usize)
    requires
        k + nested <= old(notes)@.len(),
    ensures
        final(notes)@ == model::rotate_notes(old(notes)@, k as int, nested as int),
{
    let ghost all = notes@;
    let ghost len = all.len() as int;
    let mut j: usize = 0;
    while j < nested
        invariant
            j <= nested,
            k + nested <= len,
            len == all.len(),
            notes@ == all.take(k as int) + all.subrange(len - j, len) + all.subrange(
                k as int,
                len - j,
            ),
        decreases nested - j,
    {
        let ghost before = notes@;
        let last = notes.pop();
        assert(before.len() == len);
        assert(before.last() == all[len - j - 1]);
        match last {
            Some(note) => {
                notes.insert(k, note);
            },
            None => {},
        }
        j += 1;
        assert(notes@ =~= all.take(k as int) + all.subrange(len - j, len) + all.subrange(
            k as int,
            len - j,
        ));
    }
    assert(notes@ =~= model::rotate_notes(all, k as int, nested as int));
}

impl<'a> FlowLayouter<'a> {
    /// Create a new flow layouter.
    pub fn new(
        engine: &'a Engine,
        flow: &'a FlowElem,
        span: Span,
        styles: &'a Styles,
        regions: Regions,
    ) -> (r: Self)
        ensures
            r@ == FlowState::new(*engine, *styles, span, flow.children@, regions@),
            r.flow == flow,
    {
        let ghost given = regions@;
        let mut regions = regions;
        // A single block can take the full space, so for it the vertical
        // expansion stays as it is.
        let alone = flow.children.len() == 1 && match &*flow.children[0].child.elem {
            Elem::Block(_) => true,
            _ => false,
        };
        let expand = regions.expand;
        if !alone {
            regions.expand = Axes { x: expand.x, y: false };
        }
        // The children aren't root.
        let root = regions.root;
        regions.root = false;
        let initial = regions.size;
        let r = FlowLayouter {
            engine,
            flow,
            span,
            root,
            styles,
            regions,
            expand,
            initial,
            last_was_par: false,
            items: Vec::new(),
            pending_tags: Vec::new(),
            pending_floats: Vec::new(),
            has_footnotes: false,
            finished: Vec::new(),
        };
        proof {
            let expected = FlowState::new(*engine, *styles, span, flow.children@, given);
            assert(r@.regions =~= expected.regions);
            assert(r@.items =~= expected.items);
            assert(r@.pending_floats =~= expected.pending_floats);
            assert(r@.pending_tags =~= expected.pending_tags);
            assert(r@.finished =~= expected.finished);
            assert(r@ =~= expected);
        }
        r
    }

    /// Place explicit metadata into the flow.
    pub fn handle_tag(&mut self, tag: &Tag)
        ensures
            final(self)@ == old(self)@.handle_tag(*tag),
    {
        self.pending_tags.push(tag.clone());
    }

    /// Attach currently pending metadata to the frame.
    pub fn drain_tag(&mut self, frame: &mut Frame)
        ensures
            (final(self)@, final(frame)@) == old(self)@.drain_tag(old(frame)@),
    {
        if self.pending_tags.len() > 0 && !frame.is_empty() {
            frame.prepend_tags(&self.pending_tags);
            self.pending_tags.clear();
            assert(self@ =~= FlowState { pending_tags: Seq::empty(), ..old(self)@ });
        }
    }
}

} // verus!
