//! Columns: a flow laid out into narrower regions, whose frames are put
//! side by side.

use crate::content::{Content, Styles};
use crate::engine::{Engine, LayoutError};
use crate::flow::fragment::layout_fragment;
use crate::frame::{frame_views, Frame, FrameView};
use crate::geom::{Abs, Axes, Dir, Point, Rel, Size};
use crate::model;
use crate::regions::{Regions, RegionsView};
use vstd::prelude::*;

verus! {

/// Every height taken `count` times, in order.
pub open spec fn repeated(heights: Seq<Abs>, count: nat) -> Seq<Abs>
    decreases heights.len(),
{
    if heights.len() == 0 {
        Seq::empty()
    } else {
        repeated(heights.drop_last(), count) + Seq::new(count, |j: int| heights.last())
    }
}

/// The width of one of `count` columns in a region that is `width` wide,
/// with `gutter` between two columns.
pub open spec fn column_width(width: Abs, gutter: Abs, count: usize) -> Abs {
    width.minus(gutter.times((count - 1) as usize)).over(count)
}

/// The regions that the columns are laid out into: each region becomes
/// `count` regions of the width of a column and of its own height.
pub open spec fn pod(regions: RegionsView, count: usize, gutter: Abs) -> RegionsView {
    RegionsView {
        size: Size::new(column_width(regions.size.x, gutter, count), regions.size.y),
        full: regions.full,
        backlog: repeated(seq![regions.size.y] + regions.backlog, count as nat).skip(1),
        last: regions.last,
        expand: Axes { x: true, y: regions.expand.y },
        root: regions.root,
    }
}

/// What the stitching of the columns of one region goes by.
pub struct Stitch {
    /// The width of the region.
    pub width: Abs,
    /// The space between two columns.
    pub gutter: Abs,
    /// The direction of text: the first column is on the left where text
    /// runs from left to right, and on the right otherwise.
    pub dir: Dir,
    /// Whether the frame of a region is as high as the region; else it is
    /// as high as its highest column.
    pub expand: bool,
}

/// The frame of a region while its columns are put into it.
pub ghost struct Stitched {
    /// The frame so far.
    pub output: FrameView,
    /// Where the next column starts, seen from the side where the first
    /// column is.
    pub cursor: Abs,
}

impl Stitch {
    /// The frame of a region before the first column: a frame that keeps
    /// its size, as high as the region where the flow expands, and of no
    /// height yet where it does not.
    pub open spec fn start(self, region: Size) -> Stitched {
        Stitched {
            output: FrameView::hard(
                Size::new(
                    self.width,
                    if self.expand {
                        region.y
                    } else {
                        Abs::zero()
                    },
                ),
            ),
            cursor: Abs::zero(),
        }
    }

    /// The frame of a region with one more column.
    pub open spec fn with(self, so_far: Stitched, column: FrameView) -> Stitched {
        let output = if self.expand {
            so_far.output
        } else {
            so_far.output.with_size(
                Size::new(so_far.output.size.x, so_far.output.size.y.max(column.size.y)),
            )
        };
        let x = if self.dir == Dir::LTR {
            so_far.cursor
        } else {
            self.width.minus(so_far.cursor).minus(column.size.x)
        };
        Stitched {
            output: output.push_frame(Point::with_x(x), column),
            cursor: so_far.cursor.plus(column.size.x.plus(self.gutter)),
        }
    }

    /// The frame of a region with the first `k` of the columns from
    /// `from` on.
    pub open spec fn columns(self, region: Size, frames: Seq<FrameView>, from: int, k: nat) -> Stitched
        decreases k,
    {
        if k == 0 {
            self.start(region)
        } else {
            self.with(self.columns(region, frames, from, (k - 1) as nat), frames[from + k - 1])
        }
    }

    /// The frames of the regions from the `r`-th on, when the columns from
    /// `from` on are left: each region takes `count` columns, the last
    /// one what is left; the frames end with the columns, or with the
    /// regions.
    pub open spec fn regions(
        self,
        regions: RegionsView,
        frames: Seq<FrameView>,
        from: int,
        r: int,
        count: usize,
    ) -> Seq<FrameView>
        decreases frames.len() - from,
    {
        if from < 0 || from >= frames.len() || count == 0 {
            Seq::empty()
        } else {
            match regions.at(r) {
                None => Seq::empty(),
                Some(region) => {
                    let take = if frames.len() - from < count {
                        frames.len() - from
                    } else {
                        count as int
                    };
                    seq![self.columns(region, frames, from, take as nat).output] + self.regions(
                        regions,
                        frames,
                        from + take,
                        r + 1,
                        count,
                    )
                },
            }
        }
    }
}

/// What laying out content into regions with columns yields.
///
/// In regions of infinite width there are no columns. Otherwise the content
/// is laid out into the regions of the columns, and the frames that come
/// out are put side by side, `count` to a region.
pub open spec fn with_columns(
    engine: Engine,
    content: Content,
    styles: Styles,
    regions: RegionsView,
    count: usize,
    gutter: Rel,
) -> Result<Seq<FrameView>, LayoutError> {
    if !regions.size.x.is_finite() {
        model::layout_fragment(engine, content, styles, regions)
    } else {
        let gutter = gutter.relative_to(regions.base().x);
        match model::layout_fragment(engine, content, styles, pod(regions, count, gutter)) {
            Err(e) => Err(e),
            Ok(frames) => Ok(
                Stitch {
                    width: regions.size.x,
                    gutter,
                    dir: styles.dir,
                    expand: regions.expand.y,
                }.regions(regions, frames, 0, 0, count),
            ),
        }
    }
}

/// Adds `height` to the heights `count` times.
fn push_repeated(out: &mut Vec<Abs>, height: Abs, count: usize)
    ensures
        final(out)@ == old(out)@ + Seq::new(count as nat, |j: int| height),
{
    let mut j: usize = 0;
    while j < count
        invariant
            j <= count,
            out@ == old(out)@ + Seq::new(j as nat, |k: int| height),
        decreases count - j,
    {
        out.push(height);
        j += 1;
        assert(out@ =~= old(out)@ + Seq::new(j as nat, |k: int| height));
    }
}

/// The heights of the regions of the columns.
fn pod_backlog(regions: &Regions, count: usize) -> (r: Vec<Abs>)
    requires
        count >= 1,
    ensures
        r@ == repeated(seq![regions.size.y] + regions.backlog@, count as nat).skip(1),
{
    let ghost heights = seq![regions.size.y] + regions.backlog@;
    let mut out: Vec<Abs> = Vec::new();
    push_repeated(&mut out, regions.size.y, count);
    proof {
        let first = heights.take(1);
        assert(first.drop_last() =~= Seq::<Abs>::empty());
        assert(first.last() == regions.size.y);
        assert(repeated(first.drop_last(), count as nat) =~= Seq::<Abs>::empty());
        assert(out@ =~= repeated(first, count as nat));
    }
    let mut i: usize = 0;
    while i < regions.backlog.len()
        invariant
            count >= 1,
            i <= regions.backlog.len(),
            heights == seq![regions.size.y] + regions.backlog@,
            out@ == repeated(heights.take(i as int + 1), count as nat),
            out@.len() >= 1,
        decreases regions.backlog.len() - i,
    {
        let height = regions.backlog[i];
        push_repeated(&mut out, height, count);
        proof {
            let prefix = heights.take(i as int + 2);
            assert(prefix.drop_last() =~= heights.take(i as int + 1));
            assert(prefix.last() == height);
        }
        i += 1;
    }
    proof {
        assert(heights.take(heights.len() as int) =~= heights);
    }
    out.remove(0);
    proof {
        assert(out@ =~= repeated(heights, count as nat).skip(1));
    }
    out
}

/// Lays out content into regions with columns.
///
/// This lays the content out into narrower regions, `count` for each
/// region, and puts their frames side by side.
pub fn layout_fragment_with_columns(
    engine: &Engine,
    content: &Content,
    styles: &Styles,
    regions: Regions,
    count: usize,
    gutter: Rel,
) -> (r: Result<Vec<Frame>, LayoutError>)
    requires
        count >= 1,
    ensures
        model::laid_out(with_columns(*engine, *content, *styles, regions@, count, gutter), r),
{
    // Separating the infinite space into infinite columns does not make
    // much sense.
    if !regions.size.x.is_finite() {
        return layout_fragment(engine, content, styles, regions);
    }
    // Determine the width of the gutter and each column.

    let gutter = gutter.relative_to(regions.base().x);
    let width = regions.size.x.minus(gutter.times(count - 1)).over(count);

    // Create the pod regions.
    let pod = Regions {
        size: Size::new(width, regions.size.y),
        full: regions.full,
        backlog: pod_backlog(&regions, count),
        last: regions.last,
        expand: Axes { x: true, y: regions.expand.y },
        root: regions.root,
    };
    assert(pod@ == self::pod(regions@, count, gutter));

    // Layout the children.
    let mut frames = match layout_fragment(engine, content, styles, pod) {
        Err(e) => {
            return Err(e);
        },
        Ok(frames) => frames,
    };
    let ghost all = frame_views(frames@);
    let stitch = Stitch { width: regions.size.x, gutter, dir: styles.dir, expand: regions.expand.y };
    let n = frames.len();
    let mut finished: Vec<Frame> = Vec::new();
    let mut next: usize = 0;
    let mut r: usize = 0;
    assert(forall|j: int| 0 <= j < n ==> frame_views(frames@)[j] == frames@[j]@);

    // Stitch together the columns for each region.
    while next < n
        invariant
            count >= 1,
            next <= n,
            r <= next,
            n == frames@.len(),
            all.len() == n,
            forall|j: int| next <= j < n ==> (#[trigger] frames@[j])@ == all[j],
            stitch == (Stitch {
                width: regions.size.x,
                gutter,
                dir: styles.dir,
                expand: regions.expand.y,
            }),
            frame_views(finished@) + stitch.regions(regions@, all, next as int, r as int, count)
                == stitch.regions(regions@, all, 0, 0, count),
        ensures
            frame_views(finished@) == stitch.regions(regions@, all, 0, 0, count),
        decreases n - next,
    {
        let region = match regions.at(r) {
            None => {
                assert(frame_views(finished@) + Seq::<FrameView>::empty() =~= frame_views(
                    finished@,
                ));
                break;
            },
            Some(region) => region,
        };
        // The height should be the parent height if we should expand.
        // Otherwise it is the maximum column height for the frame. In that
        // case, the frame is first created with zero height and then
        // resized.
        let height = if stitch.expand {
            region.y
        } else {
            Abs::zero()
        };
        let mut output = Frame::hard(Size::new(stitch.width, height));
        let mut cursor = Abs::zero();
        let take = if n - next < count {
            n - next
        } else {
            count
        };
        let from = next;
        let mut k: usize = 0;
        while k < take
            invariant
                k <= take,
                from + take <= n,
                next == from + k,
                n == frames@.len(),
                all.len() == n,
                forall|j: int| next <= j < n ==> (#[trigger] frames@[j])@ == all[j],
                stitch.columns(region, all, from as int, k as nat) == (Stitched {
                    output: output@,
                    cursor,
                }),
            decreases take - k,
        {
            let mut frame = Frame::soft(Size::zero());
            core::mem::swap(&mut frames[next], &mut frame);
            if !stitch.expand {
                output.set_size(Size::new(output.width(), output.height().max(frame.height())));
            }
            let width = frame.width();
            let x = match stitch.dir {
                Dir::LTR => cursor,
                _ => stitch.width.minus(cursor).minus(width),
            };
            output.push_frame(Point::with_x(x), frame);
            cursor = cursor.plus(width.plus(stitch.gutter));
            k += 1;
            next += 1;
        }
        let ghost before = frame_views(finished@);
        finished.push(output);
        proof {
            let rest = stitch.regions(regions@, all, next as int, r as int + 1, count);
            assert(frame_views(finished@) =~= before + seq![
                stitch.columns(region, all, from as int, take as nat).output,
            ]);
            assert(stitch.regions(regions@, all, from as int, r as int, count) == seq![
                stitch.columns(region, all, from as int, take as nat).output,
            ] + rest);
            assert(frame_views(finished@) + rest =~= before + stitch.regions(
                regions@,
                all,
                from as int,
                r as int,
                count,
            ));
        }
        r += 1;
    }
    proof {
        if next >= n {
            assert(frame_views(finished@) + Seq::<FrameView>::empty() =~= frame_views(finished@));
        }
    }
    Ok(finished)
}

} // verus!
