//! Frames: the rigid rectangles that layout produces.

use crate::content::Tag;
use crate::geom::{Abs, Point, Size};
use vstd::prelude::*;

verus! {

/// Whether a frame keeps its size when it holds nothing.
#[derive(Clone, Copy, PartialEq, Eq, Structural, Debug, Hash)]
pub enum FrameKind {
    /// The frame may be trimmed.
    Soft,
    /// The frame keeps its declared size even when it is empty.
    Hard,
}

/// A finished layout: a size and the items placed in it.
#[derive(PartialEq, Eq, Debug, Hash)]
pub struct Frame {
    pub size: Size,
    pub items: Vec<(Point, FrameItem)>,
    pub kind: FrameKind,
}

/// What a frame can hold.
#[derive(PartialEq, Eq, Debug, Hash)]
pub enum FrameItem {
    /// A frame inside the frame.
    Group(Frame),
    /// A run of shaped text, by its identity.
    Text(u64),
    /// A link to a destination, with the size of the area that is linked.
    Link(u64, Size),
    /// A mark that says which element was laid out here.
    Tag(Tag),
}

/// The mathematical value of a [`Frame`].
pub ghost struct FrameView {
    pub size: Size,
    pub items: Seq<(Point, FrameItemView)>,
    pub kind: FrameKind,
}

/// The mathematical value of a [`FrameItem`].
pub ghost enum FrameItemView {
    Group(FrameView),
    Text(u64),
    Link(u64, Size),
    Tag(Tag),
}

/// The value of a frame: its size, its kind and the values of its items.
pub open spec fn frame_view(frame: Frame) -> FrameView
    decreases frame,
{
    FrameView {
        size: frame.size,
        items: Seq::new(
            frame.items@.len(),
            |i: int|
                if 0 <= i < frame.items@.len() {
                    (frame.items@[i].0, item_view(frame.items@[i].1))
                } else {
                    arbitrary()
                },
        ),
        kind: frame.kind,
    }
}

/// The value of an item of a frame.
pub open spec fn item_view(item: FrameItem) -> FrameItemView
    decreases item,
{
    match item {
        FrameItem::Group(frame) => FrameItemView::Group(frame_view(frame)),
        FrameItem::Text(id) => FrameItemView::Text(id),
        FrameItem::Link(dest, size) => FrameItemView::Link(dest, size),
        FrameItem::Tag(tag) => FrameItemView::Tag(tag),
    }
}

impl View for Frame {
    type V = FrameView;

    open spec fn view(&self) -> FrameView {
        frame_view(*self)
    }
}

impl View for FrameItem {
    type V = FrameItemView;

    open spec fn view(&self) -> FrameItemView {
        item_view(*self)
    }
}

/// The items of a frame's value are the values of its items, in order.
pub proof fn lemma_frame_items(frame: Frame)
    ensures
        frame@.size == frame.size,
        frame@.kind == frame.kind,
        frame@.items.len() == frame.items@.len(),
        forall|i: int|
            0 <= i < frame.items@.len() ==> #[trigger] frame@.items[i] == (
                frame.items@[i].0,
                frame.items@[i].1@,
            ),
{
}

/// The values of a sequence of frames.
pub open spec fn frame_views(frames: Seq<Frame>) -> Seq<FrameView> {
    frames.map_values(|frame: Frame| frame@)
}

impl FrameItemView {
    /// Whether the item marks something without showing anything.
    pub open spec fn is_mark(self) -> bool {
        self is Link || self is Tag
    }
}

impl FrameView {
    /// An empty frame of the given size that may be trimmed.
    pub open spec fn soft(size: Size) -> FrameView {
        FrameView { size, items: Seq::empty(), kind: FrameKind::Soft }
    }

    /// An empty frame that keeps the given size.
    pub open spec fn hard(size: Size) -> FrameView {
        FrameView { size, items: Seq::empty(), kind: FrameKind::Hard }
    }

    pub open spec fn is_empty(self) -> bool {
        self.items.len() == 0
    }

    pub open spec fn with_size(self, size: Size) -> FrameView {
        FrameView { size, ..self }
    }

    /// The frame with `extra` added to its height.
    pub open spec fn taller(self, extra: Abs) -> FrameView {
        self.with_size(Size::new(self.size.x, self.size.y.plus(extra)))
    }

    /// The frame with every item moved by `offset`.
    pub open spec fn translate(self, offset: Point) -> FrameView {
        FrameView {
            items: Seq::new(
                self.items.len(),
                |i: int| (self.items[i].0.plus(offset), self.items[i].1),
            ),
            ..self
        }
    }

    /// The frame with one more item, on top of the others.
    pub open spec fn push(self, pos: Point, item: FrameItemView) -> FrameView {
        FrameView { items: self.items.push((pos, item)), ..self }
    }

    /// The frame with `frame` on top of its items, as a group.
    pub open spec fn push_frame(self, pos: Point, frame: FrameView) -> FrameView {
        self.push(pos, FrameItemView::Group(frame))
    }

    /// The frame with `frame` below its items, as a group.
    pub open spec fn prepend_frame(self, pos: Point, frame: FrameView) -> FrameView {
        FrameView { items: seq![(pos, FrameItemView::Group(frame))] + self.items, ..self }
    }

    /// The frame with the tags, all at `pos`, on top of its items.
    pub open spec fn push_tags(self, pos: Point, tags: Seq<Tag>) -> FrameView {
        FrameView {
            items: self.items + Seq::new(tags.len(), |i: int| (pos, FrameItemView::Tag(tags[i]))),
            ..self
        }
    }

    /// The frame with the tags, all at the origin, below its items.
    pub open spec fn prepend_tags(self, tags: Seq<Tag>) -> FrameView {
        FrameView {
            items: Seq::new(tags.len(), |i: int| (Point::zero(), FrameItemView::Tag(tags[i])))
                + self.items,
            ..self
        }
    }

    /// Whether the frame takes no space and holds nothing but marks.
    pub open spec fn is_invisible(self) -> bool {
        self.size.is_zero() && forall|i: int|
            0 <= i < self.items.len() ==> (#[trigger] self.items[i]).1.is_mark()
    }
}

impl Clone for Frame {
    fn clone(&self) -> (r: Self)
        ensures
            r@ == self@,
        decreases self,
    {
        let mut items: Vec<(Point, FrameItem)> = Vec::new();
        let mut i: usize = 0;
        while i < self.items.len()
            invariant
                i <= self.items.len(),
                items@.len() == i,
                forall|j: int|
                    0 <= j < i ==> items@[j].0 == self.items@[j].0 && items@[j].1@
                        == self.items@[j].1@,
            decreases self.items.len() - i,
        {
            let item = match &self.items[i].1 {
                FrameItem::Group(frame) => FrameItem::Group(frame.clone()),
                FrameItem::Text(id) => FrameItem::Text(*id),
                FrameItem::Link(dest, size) => FrameItem::Link(*dest, *size),
                FrameItem::Tag(tag) => FrameItem::Tag(tag.clone()),
            };
            items.push((self.items[i].0, item));
            i += 1;
        }
        let r = Frame { size: self.size, items, kind: self.kind };
        assert(r@.items =~= self@.items);
        r
    }
}

impl Frame {
    /// An empty frame of the given size that may be trimmed.
    pub fn soft(size: Size) -> (r: Frame)
        ensures
            r@ == FrameView::soft(size),
    {
        let r = Frame { size, items: Vec::new(), kind: FrameKind::Soft };
        assert(r@.items =~= Seq::empty());
        r
    }

    /// An empty frame that keeps the given size.
    pub fn hard(size: Size) -> (r: Frame)
        ensures
            r@ == FrameView::hard(size),
    {
        let r = Frame { size, items: Vec::new(), kind: FrameKind::Hard };
        assert(r@.items =~= Seq::empty());
        r
    }

    /// The size of the frame.
    pub fn size(&self) -> (r: Size)
        ensures
            r == self@.size,
    {
        self.size
    }

    /// The width of the frame.
    pub fn width(&self) -> (r: Abs)
        ensures
            r == self@.size.x,
    {
        self.size.x
    }

    /// The height of the frame.
    pub fn height(&self) -> (r: Abs)
        ensures
            r == self@.size.y,
    {
        self.size.y
    }

    /// Whether the frame holds no items.
    pub fn is_empty(&self) -> (r: bool)
        ensures
            r == self@.is_empty(),
    {
        self.items.len() == 0
    }

    /// Gives the frame another size; the items stay where they are.
    pub fn set_size(&mut self, size: Size)
        ensures
            final(self)@ == old(self)@.with_size(size),
    {
        self.size = size;
        assert(self@.items =~= old(self)@.items);
    }

    /// Moves every item by `offset`.
    pub fn translate(&mut self, offset: Point)
        ensures
            final(self)@ == old(self)@.translate(offset),
    {
        let mut i: usize = 0;
        while i < self.items.len()
            invariant
                i <= self.items.len(),
                self.items@.len() == old(self).items@.len(),
                self.size == old(self).size,
                self.kind == old(self).kind,
                forall|j: int|
                    0 <= j < i ==> (#[trigger] self.items@[j]).0 == old(self).items@[j].0.plus(
                        offset,
                    ) && self.items@[j].1 == old(self).items@[j].1,
                forall|j: int|
                    i <= j < self.items@.len() ==> #[trigger] self.items@[j] == old(
                        self,
                    ).items@[j],
            decreases self.items.len() - i,
        {
            let entry = &mut self.items[i];
            entry.0 = entry.0.plus(offset);
            i += 1;
        }
        assert(self@.items =~= old(self)@.translate(offset).items);
    }

    /// Puts `item` on top of the items of the frame.
    pub fn push(&mut self, pos: Point, item: FrameItem)
        ensures
            final(self)@ == old(self)@.push(pos, item@),
    {
        self.items.push((pos, item));
        assert(self@.items =~= old(self)@.items.push((pos, item@)));
    }

    /// Puts `frame` on top of the items of the frame, as a group.
    pub fn push_frame(&mut self, pos: Point, frame: Frame)
        ensures
            final(self)@ == old(self)@.push_frame(pos, frame@),
    {
        self.push(pos, FrameItem::Group(frame));
    }

    /// Puts `frame` below the items of the frame, as a group.
    pub fn prepend_frame(&mut self, pos: Point, frame: Frame)
        ensures
            final(self)@ == old(self)@.prepend_frame(pos, frame@),
    {
        self.items.insert(0, (pos, FrameItem::Group(frame)));
        assert forall|i: int| 0 <= i < self.items@.len() implies self@.items[i] == old(
            self,
        )@.prepend_frame(pos, frame@).items[i] by {
            if i > 0 {
                assert(self.items@[i] == old(self).items@[i - 1]);
            }
        }
        assert(self@.items =~= old(self)@.prepend_frame(pos, frame@).items);
    }

    /// Puts the tags, all at `pos`, on top of the items of the frame.
    pub fn push_tags(&mut self, pos: Point, tags: &Vec<Tag>)
        ensures
            final(self)@ == old(self)@.push_tags(pos, tags@),
    {
        let mut i: usize = 0;
        while i < tags.len()
            invariant
                i <= tags.len(),
                self@ == old(self)@.push_tags(pos, tags@.take(i as int)),
            decreases tags.len() - i,
        {
            let ghost before = self@;
            self.push(pos, FrameItem::Tag(tags[i].clone()));
            i += 1;
            assert(self@.items =~= old(self)@.push_tags(pos, tags@.take(i as int)).items);
        }
        assert(tags@.take(tags.len() as int) =~= tags@);
    }

    /// Puts the tags, all at the origin, below the items of the frame.
    pub fn prepend_tags(&mut self, tags: &Vec<Tag>)
        ensures
            final(self)@ == old(self)@.prepend_tags(tags@),
    {
        let mut i: usize = 0;
        while i < tags.len()
            invariant
                i <= tags.len(),
                self.items@.len() == old(self).items@.len() + i,
                self@ == old(self)@.prepend_tags(tags@.take(i as int)),
            decreases tags.len() - i,
        {
            let ghost before = *self;
            self.items.insert(i, (Point::zero(), FrameItem::Tag(tags[i].clone())));
            i += 1;
            assert forall|j: int| 0 <= j < self.items@.len() implies self@.items[j] == old(
                self,
            )@.prepend_tags(tags@.take(i as int)).items[j] by {
                if j < i - 1 {
                    assert(self.items@[j] == before.items@[j]);
                    assert(before@.items[j] == (Point::zero(), FrameItemView::Tag(tags@[j])));
                } else if j >= i {
                    assert(self.items@[j] == before.items@[j - 1]);
                    assert(before@.items[j - 1] == old(self)@.items[j - i]);
                }
            }
            assert(self@.items =~= old(self)@.prepend_tags(tags@.take(i as int)).items);
        }
        assert(tags@.take(tags.len() as int) =~= tags@);
    }

    /// Whether the frame takes no space and holds nothing but marks.
    pub fn is_invisible(&self) -> (r: bool)
        ensures
            r == self@.is_invisible(),
    {
        if !self.size.is_zero() {
            return false;
        }
        let mut i: usize = 0;
        while i < self.items.len()
            invariant
                i <= self.items.len(),
                self@.items.len() == self.items@.len(),
                forall|j: int| 0 <= j < i ==> (#[trigger] self@.items[j]).1.is_mark(),
            decreases self.items.len() - i,
        {
            assert(self@.items[i as int].1 == self.items@[i as int].1@);
            match &self.items[i].1 {
                FrameItem::Link(_, _) => {},
                FrameItem::Tag(_) => {},
                _ => {
                    assert(!self@.items[i as int].1.is_mark());
                    return false;
                },
            }
            i += 1;
        }
        true
    }
}

/// Copies of the frames, in the same order.
pub fn clone_frames(frames: &Vec<Frame>) -> (r: Vec<Frame>)
    ensures
        frame_views(r@) == frame_views(frames@),
{
    let mut out: Vec<Frame> = Vec::new();
    let mut i: usize = 0;
    while i < frames.len()
        invariant
            i <= frames.len(),
            out@.len() == i,
            forall|j: int| 0 <= j < i ==> out@[j]@ == frames@[j]@,
        decreases frames.len() - i,
    {
        out.push(frames[i].clone());
        i += 1;
    }
    assert(frame_views(out@) =~= frame_views(frames@));
    out
}

} // verus!
