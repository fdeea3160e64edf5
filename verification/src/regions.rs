//! Regions: the rectangles that a flow is laid out into, one after the
//! other.

use crate::geom::{Abs, Axes, Size};
use vstd::prelude::*;

verus! {

/// A single region to lay out into.
#[derive(Clone, Copy, PartialEq, Eq, Structural, Debug, Hash)]
pub struct Region {
    /// The size of the region.
    pub size: Size,
    /// Whether the content must fill the region along each axis even when
    /// it is smaller.
    pub expand: Axes<bool>,
}

impl Region {
    pub open spec fn new_spec(size: Size, expand: Axes<bool>) -> Region {
        Region { size, expand }
    }

    /// A region of the given size.
    #[verifier::when_used_as_spec(new_spec)]
    pub fn new(size: Size, expand: Axes<bool>) -> (r: Region)
        ensures
            r == Region::new_spec(size, expand),
    {
        Region { size, expand }
    }
}

/// A sequence of regions to lay out into, all of one width.
#[derive(PartialEq, Eq, Debug, Hash)]
pub struct Regions {
    /// What is left of the current region.
    pub size: Size,
    /// The full height of the current region, for relative sizing.
    pub full: Abs,
    /// The heights of the regions that follow the current one.
    pub backlog: Vec<Abs>,
    /// The height of the regions that follow the backlog, without end. Where
    /// there is none, the sequence ends with the backlog.
    pub last: Option<Abs>,
    /// Whether the content must fill the regions along each axis.
    pub expand: Axes<bool>,
    /// Whether these are the regions of the outermost flow, which hosts the
    /// footnotes.
    pub root: bool,
}

/// The mathematical value of [`Regions`].
pub ghost struct RegionsView {
    pub size: Size,
    pub full: Abs,
    pub backlog: Seq<Abs>,
    pub last: Option<Abs>,
    pub expand: Axes<bool>,
    pub root: bool,
}

impl View for Regions {
    type V = RegionsView;

    open spec fn view(&self) -> RegionsView {
        RegionsView {
            size: self.size,
            full: self.full,
            backlog: self.backlog@,
            last: self.last,
            expand: self.expand,
            root: self.root,
        }
    }
}

impl RegionsView {
    /// The one region `region`, followed by nothing.
    pub open spec fn single(region: Region) -> RegionsView {
        RegionsView {
            size: region.size,
            full: region.size.y,
            backlog: Seq::empty(),
            last: None,
            expand: region.expand,
            root: false,
        }
    }

    /// Regions of the given size, without end.
    pub open spec fn repeat(size: Size, expand: Axes<bool>) -> RegionsView {
        RegionsView {
            size,
            full: size.y,
            backlog: Seq::empty(),
            last: Some(size.y),
            expand,
            root: false,
        }
    }

    /// The size that relative lengths refer to.
    pub open spec fn base(self) -> Size {
        Size::new(self.size.x, self.full)
    }

    /// Whether the current region is the last one: nothing is in the
    /// backlog, and the current region is still as high as the repeating
    /// one, if there is one.
    pub open spec fn in_last(self) -> bool {
        self.backlog.len() == 0 && match self.last {
            Some(height) => self.size.y == height,
            None => true,
        }
    }

    /// Whether nothing is left of the current region while another one
    /// follows.
    pub open spec fn is_full(self) -> bool {
        Abs::zero().fits(self.size.y) && !self.in_last()
    }

    /// Whether a region follows the current one.
    pub open spec fn may_progress(self) -> bool {
        self.backlog.len() > 0 || self.last is Some
    }

    /// The regions after the step to the next one: the first height of the
    /// backlog, or else the repeating height, becomes the current one.
    /// Where neither exists, nothing changes.
    pub open spec fn next(self) -> RegionsView {
        if self.backlog.len() > 0 {
            RegionsView {
                size: Size::new(self.size.x, self.backlog[0]),
                full: self.backlog[0],
                backlog: self.backlog.remove(0),
                ..self
            }
        } else {
            match self.last {
                Some(height) => RegionsView {
                    size: Size::new(self.size.x, height),
                    full: height,
                    ..self
                },
                None => self,
            }
        }
    }

    /// The size of the region `i` steps after the current one, if the
    /// sequence is that long.
    pub open spec fn at(self, i: int) -> Option<Size> {
        if i <= 0 {
            Some(self.size)
        } else if i - 1 < self.backlog.len() {
            Some(Size::new(self.size.x, self.backlog[i - 1]))
        } else {
            match self.last {
                Some(height) => Some(Size::new(self.size.x, height)),
                None => None,
            }
        }
    }

    /// The same regions with another answer to whether they are the
    /// outermost.
    pub open spec fn with_root(self, root: bool) -> RegionsView {
        RegionsView { root, ..self }
    }
}

impl Clone for Regions {
    fn clone(&self) -> (r: Self)
        ensures
            r@ == self@,
    {
        let mut backlog: Vec<Abs> = Vec::new();
        let mut i: usize = 0;
        while i < self.backlog.len()
            invariant
                i <= self.backlog.len(),
                backlog@ == self.backlog@.take(i as int),
            decreases self.backlog.len() - i,
        {
            backlog.push(self.backlog[i]);
            i += 1;
            assert(backlog@ =~= self.backlog@.take(i as int));
        }
        assert(self.backlog@.take(self.backlog.len() as int) =~= self.backlog@);
        Regions {
            size: self.size,
            full: self.full,
            backlog,
            last: self.last,
            expand: self.expand,
            root: self.root,
        }
    }
}

impl Regions {
    /// The one region `region`, followed by nothing.
    pub fn single(region: Region) -> (r: Regions)
        ensures
            r@ == RegionsView::single(region),
    {
        Regions {
            size: region.size,
            full: region.size.y,
            backlog: Vec::new(),
            last: None,
            expand: region.expand,
            root: false,
        }
    }

    /// Regions of the given size, without end.
    pub fn repeat(size: Size, expand: Axes<bool>) -> (r: Regions)
        ensures
            r@ == RegionsView::repeat(size, expand),
    {
        Regions {
            size,
            full: size.y,
            backlog: Vec::new(),
            last: Some(size.y),
            expand,
            root: false,
        }
    }

    /// The size that relative lengths refer to.
    pub fn base(&self) -> (r: Size)
        ensures
            r == self@.base(),
    {
        Size::new(self.size.x, self.full)
    }

    /// Whether the current region is the last one.
    pub fn in_last(&self) -> (r: bool)
        ensures
            r == self@.in_last(),
    {
        self.backlog.len() == 0 && match self.last {
            Some(height) => self.size.y == height,
            None => true,
        }
    }

    /// Whether nothing is left of the current region while another one
    /// follows.
    pub fn is_full(&self) -> (r: bool)
        ensures
            r == self@.is_full(),
    {
        Abs::zero().fits(self.size.y) && !self.in_last()
    }

    /// Whether a region follows the current one.
    pub fn may_progress(&self) -> (r: bool)
        ensures
            r == self@.may_progress(),
    {
        self.backlog.len() > 0 || self.last.is_some()
    }

    /// Steps to the next region.
    pub fn next(&mut self)
        ensures
            final(self)@ == old(self)@.next(),
    {
        if self.backlog.len() > 0 {
            let height = self.backlog.remove(0);
            self.size.y = height;
            self.full = height;
        } else {
            match self.last {
                Some(height) => {
                    self.size.y = height;
                    self.full = height;
                },
                None => {},
            }
        }
    }

    /// The size of the region `i` steps after the current one, if the
    /// sequence is that long.
    pub fn at(&self, i: usize) -> (r: Option<Size>)
        ensures
            r == self@.at(i as int),
    {
        if i == 0 {
            Some(self.size)
        } else if i - 1 < self.backlog.len() {
            Some(Size::new(self.size.x, self.backlog[i - 1]))
        } else {
            match self.last {
                Some(height) => Some(Size::new(self.size.x, height)),
                None => None,
            }
        }
    }

    /// The same regions with another answer to whether they are the
    /// outermost.
    pub fn with_root(&self, root: bool) -> (r: Regions)
        ensures
            r@ == self@.with_root(root),
    {
        let mut r = self.clone();
        r.root = root;
        r
    }
}

} // verus!
