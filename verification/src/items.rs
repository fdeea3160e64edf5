//! The items that a flow collects for a region, and how a region's frame is
//! built from them.

use crate::frame::{Frame, FrameView};
use crate::geom::{Abs, Axes, FixedAlignment, Fr, Point, Rel, Size, Smart};
use vstd::prelude::*;

verus! {

/// A prepared item in a flow layout.
#[derive(PartialEq, Eq, Debug, Hash)]
pub enum FlowItem {
    /// Spacing between other items and whether it is weak.
    Absolute(Abs, bool),
    /// Fractional spacing between other items.
    Fractional(Fr),
    /// A frame for a laid-out block.
    Frame {
        /// The frame itself.
        frame: Frame,
        /// How to align the frame.
        align: Axes<FixedAlignment>,
        /// Whether the frame sticks to the item after it.
        sticky: bool,
        /// Whether the frame is kept together with its footnotes.
        movable: bool,
    },
    /// An absolutely placed frame.
    Placed {
        /// The laid-out content.
        frame: Frame,
        /// Where to place the content horizontally.
        x_align: FixedAlignment,
        /// Where to place the content vertically.
        y_align: Smart<Option<FixedAlignment>>,
        /// How far the content is moved from where it is placed.
        delta: Axes<Rel>,
        /// Whether the content floats, that is, collides with in-flow
        /// content.
        float: bool,
        /// The space that is kept between the placed content and in-flow
        /// content; it matters for floats only.
        clearance: Abs,
    },
    /// A footnote frame; the separator is one too.
    Footnote(Frame),
}

/// The mathematical value of a [`FlowItem`].
pub ghost enum FlowItemView {
    Absolute(Abs, bool),
    Fractional(Fr),
    Frame { frame: FrameView, align: Axes<FixedAlignment>, sticky: bool, movable: bool },
    Placed {
        frame: FrameView,
        x_align: FixedAlignment,
        y_align: Smart<Option<FixedAlignment>>,
        delta: Axes<Rel>,
        float: bool,
        clearance: Abs,
    },
    Footnote(FrameView),
}

impl View for FlowItem {
    type V = FlowItemView;

    open spec fn view(&self) -> FlowItemView {
        match self {
            FlowItem::Absolute(v, weak) => FlowItemView::Absolute(*v, *weak),
            FlowItem::Fractional(fr) => FlowItemView::Fractional(*fr),
            FlowItem::Frame { frame, align, sticky, movable } => FlowItemView::Frame {
                frame: frame@,
                align: *align,
                sticky: *sticky,
                movable: *movable,
            },
            FlowItem::Placed { frame, x_align, y_align, delta, float, clearance } => {
                FlowItemView::Placed {
                    frame: frame@,
                    x_align: *x_align,
                    y_align: *y_align,
                    delta: *delta,
                    float: *float,
                    clearance: *clearance,
                }
            },
            FlowItem::Footnote(frame) => FlowItemView::Footnote(frame@),
        }
    }
}

/// The values of a sequence of items.
pub open spec fn item_views(items: Seq<FlowItem>) -> Seq<FlowItemView> {
    items.map_values(|item: FlowItem| item@)
}

impl FlowItemView {
    /// Whether the item is out of the flow: placed content that does not
    /// float, or a frame that takes no space and holds nothing but marks.
    pub open spec fn is_out_of_flow(self) -> bool {
        match self {
            FlowItemView::Placed { float, .. } => !float,
            FlowItemView::Frame { frame, .. } => frame.is_invisible(),
            _ => false,
        }
    }

    /// Whether the item is weak spacing.
    pub open spec fn is_weak(self) -> bool {
        self matches FlowItemView::Absolute(_, weak) && weak
    }

    /// Whether the item is a float that is docked at the top.
    pub open spec fn floats_top(self) -> bool {
        self matches FlowItemView::Placed { float, y_align, .. } && float && y_align
            == Smart::Custom(Some(FixedAlignment::Start))
    }

    /// Whether the item is a float that is docked at the bottom.
    pub open spec fn floats_bottom(self) -> bool {
        self matches FlowItemView::Placed { float, y_align, .. } && float && y_align
            == Smart::Custom(Some(FixedAlignment::End))
    }
}

impl FlowItem {
    /// Whether this item is out of the flow.
    ///
    /// Such items take no space, so a region that holds nothing else need
    /// not be made for them.
    pub fn is_out_of_flow(&self) -> (r: bool)
        ensures
            r == self@.is_out_of_flow(),
    {
        match self {
            FlowItem::Placed { float, .. } => !*float,
            FlowItem::Frame { frame, .. } => frame.is_invisible(),
            _ => false,
        }
    }
}

/// Whether every item is out of the flow.
pub open spec fn all_out_of_flow(items: Seq<FlowItemView>) -> bool {
    forall|i: int| 0 <= i < items.len() ==> (#[trigger] items[i]).is_out_of_flow()
}

/// Whether one of the items is a frame of the flow.
pub open spec fn has_frame(items: Seq<FlowItemView>) -> bool {
    exists|i: int| 0 <= i < items.len() && (#[trigger] items[i]) is Frame
}

/// The items without the weak spacing at their end.
pub open spec fn trim_weak(items: Seq<FlowItemView>) -> Seq<FlowItemView>
    decreases items.len(),
{
    if items.len() > 0 && items.last().is_weak() {
        trim_weak(items.drop_last())
    } else {
        items
    }
}

/// What the items of a region add up to.
#[derive(Clone, Copy, PartialEq, Eq, Structural, Debug)]
pub struct Measure {
    /// The width of the widest frame, and the height of spacing and
    /// frames; [`Measure::total`] adds the bands to the height.
    pub used: Size,
    /// The fractional spacing.
    pub fr: Fr,
    /// The height of the footnotes, with the gaps between them.
    pub footnotes: Abs,
    /// The height of the floats that are docked at the top.
    pub float_top: Abs,
    /// The height of the floats that are docked at the bottom.
    pub float_bottom: Abs,
    /// Whether no footnote was seen yet.
    pub first_footnote: bool,
}

impl Measure {
    pub open spec fn start_spec() -> Measure {
        Measure {
            used: Size::zero(),
            fr: Fr::zero(),
            footnotes: Abs::zero(),
            float_top: Abs::zero(),
            float_bottom: Abs::zero(),
            first_footnote: true,
        }
    }

    /// The measure of no items.
    #[verifier::when_used_as_spec(start_spec)]
    pub fn start() -> (r: Measure)
        ensures
            r == Measure::start_spec(),
    {
        Measure {
            used: Size::zero(),
            fr: Fr::zero(),
            footnotes: Abs::zero(),
            float_top: Abs::zero(),
            float_bottom: Abs::zero(),
            first_footnote: true,
        }
    }

    /// The measure with one more item. `gap` is the space between two
    /// footnotes.
    pub open spec fn with(self, item: FlowItemView, gap: Abs) -> Measure {
        match item {
            FlowItemView::Absolute(v, _) => Measure {
                used: Size::new(self.used.x, self.used.y.plus(v)),
                ..self
            },
            FlowItemView::Fractional(v) => Measure { fr: self.fr.plus(v), ..self },
            FlowItemView::Frame { frame, .. } => Measure {
                used: Size::new(self.used.x.max(frame.size.x), self.used.y.plus(frame.size.y)),
                ..self
            },
            FlowItemView::Placed { frame, .. } => if item.floats_top() {
                Measure { float_top: self.float_top.plus(frame.size.y), ..self }
            } else if item.floats_bottom() {
                Measure { float_bottom: self.float_bottom.plus(frame.size.y), ..self }
            } else {
                self
            },
            FlowItemView::Footnote(frame) => Measure {
                used: Size::new(self.used.x.max(frame.size.x), self.used.y),
                footnotes: if self.first_footnote {
                    self.footnotes.plus(frame.size.y)
                } else {
                    self.footnotes.plus(frame.size.y).plus(gap)
                },
                first_footnote: false,
                ..self
            },
        }
    }

    /// The measure of `items`, taken from the first to the last.
    pub open spec fn of(items: Seq<FlowItemView>, gap: Abs) -> Measure
        decreases items.len(),
    {
        if items.len() == 0 {
            Measure::start()
        } else {
            Measure::of(items.drop_last(), gap).with(items.last(), gap)
        }
    }

    pub open spec fn total_spec(self) -> Abs {
        self.used.y.plus(self.footnotes.plus(self.float_top).plus(self.float_bottom))
    }

    /// The height that the items take in all: spacing and frames, the
    /// footnote area and both float bands.
    #[verifier::when_used_as_spec(total_spec)]
    pub fn total(self) -> (r: Abs)
        ensures
            r == self.total_spec(),
    {
        self.used.y.plus(self.footnotes.plus(self.float_top).plus(self.float_bottom))
    }
}

/// What the placement of the items of a region goes by.
#[derive(Clone, Copy, PartialEq, Eq, Structural, Debug)]
pub struct Plan {
    /// The size of the frame that is built.
    pub size: Size,
    /// The height of the region when it was entered.
    pub initial_y: Abs,
    /// The height that the items take in all.
    pub used_y: Abs,
    /// The sum of the fractional spacing.
    pub fr: Fr,
    /// The height of the footnote area.
    pub footnotes: Abs,
    /// The height of the band of floats at the bottom.
    pub float_bottom: Abs,
    /// The space between two footnotes.
    pub gap: Abs,
}

impl Plan {
    /// The size of the frame of a region: on each axis the region's size
    /// where the flow expands and the used size where it does not, but
    /// never more than the region's size; and the region's full height
    /// where that is finite and the region holds fractional spacing or
    /// footnotes.
    pub open spec fn frame_size(
        measure: Measure,
        initial: Size,
        expand: Axes<bool>,
        has_footnotes: bool,
    ) -> Size {
        let used = Size::new(measure.used.x, measure.total());
        let size = expand.select(initial, used).min(initial);
        if (measure.fr.is_positive() || has_footnotes) && initial.y.is_finite() {
            Size::new(size.x, initial.y)
        } else {
            size
        }
    }

    pub open spec fn new_spec(
        measure: Measure,
        initial: Size,
        expand: Axes<bool>,
        has_footnotes: bool,
        gap: Abs,
    ) -> Plan {
        Plan {
            size: Plan::frame_size(measure, initial, expand, has_footnotes),
            initial_y: initial.y,
            used_y: measure.total(),
            fr: measure.fr,
            footnotes: measure.footnotes,
            float_bottom: measure.float_bottom,
            gap,
        }
    }

    /// The plan for a region that was `initial` large when it was entered
    /// and whose items measure `measure`.
    #[verifier::when_used_as_spec(new_spec)]
    pub fn new(
        measure: Measure,
        initial: Size,
        expand: Axes<bool>,
        has_footnotes: bool,
        gap: Abs,
    ) -> (r: Plan)
        ensures
            r == Plan::new_spec(measure, initial, expand, has_footnotes, gap),
    {
        let used = Size::new(measure.used.x, measure.total());
        let mut size = expand.select(initial, used).min(initial);
        if (measure.fr.is_positive() || has_footnotes) && initial.y.is_finite() {
            size = Size::new(size.x, initial.y);
        }
        Plan {
            size,
            initial_y: initial.y,
            used_y: measure.total(),
            fr: measure.fr,
            footnotes: measure.footnotes,
            float_bottom: measure.float_bottom,
            gap,
        }
    }

    /// Where content of the flow goes when the main cursor is at `offset`
    /// and `ruler` is the strongest alignment so far: the cursor, moved by
    /// the ruler's share of the height that the items leave free.
    pub open spec fn flow_y_spec(self, offset: Abs, ruler: FixedAlignment) -> Abs {
        offset.plus(ruler.position(self.size.y.minus(self.used_y)))
    }

    /// Where content of the flow goes vertically.
    #[verifier::when_used_as_spec(flow_y_spec)]
    pub fn flow_y(self, offset: Abs, ruler: FixedAlignment) -> (r: Abs)
        ensures
            r == self.flow_y_spec(offset, ruler),
    {
        offset.plus(ruler.position(self.size.y.minus(self.used_y)))
    }
}

/// The frame of a region while its items are placed, with the cursors of
/// the four bands.
pub ghost struct Cursor {
    /// The frame so far.
    pub output: FrameView,
    /// The strongest vertical alignment seen so far.
    pub ruler: FixedAlignment,
    /// How far the band of floats at the top is filled.
    pub float_top_offset: Abs,
    /// The main cursor: where the next item of the flow goes.
    pub offset: Abs,
    /// How far the band of floats at the bottom is filled.
    pub float_bottom_offset: Abs,
    /// How far the footnote area is filled.
    pub footnote_offset: Abs,
}

impl Cursor {
    /// The cursor before the first item: an empty frame, and the main
    /// cursor below the band of floats at the top.
    pub open spec fn start(plan: Plan, float_top: Abs) -> Cursor {
        Cursor {
            output: FrameView::soft(plan.size),
            ruler: FixedAlignment::Start,
            float_top_offset: Abs::zero(),
            offset: float_top,
            float_bottom_offset: Abs::zero(),
            footnote_offset: Abs::zero(),
        }
    }

    /// The cursor after one more item.
    ///
    /// Spacing moves the main cursor: absolute spacing by its length,
    /// fractional spacing by its share of the height that the region had
    /// left. A frame goes to the main cursor, aligned horizontally by its
    /// own alignment and vertically by the ruler, which its alignment may
    /// raise but never lowers. A float goes to the cursor of its band. Other
    /// placed content goes where its alignment says, or to the main cursor
    /// where it says nothing, and is moved by its shift. A footnote
    /// goes to the cursor of the footnote area, which then moves by the
    /// footnote's height and the gap.
    pub open spec fn with(self, item: FlowItemView, plan: Plan) -> Cursor {
        match item {
            FlowItemView::Absolute(v, _) => Cursor { offset: self.offset.plus(v), ..self },
            FlowItemView::Fractional(v) => Cursor {
                offset: self.offset.plus(
                    v.share(plan.fr, plan.initial_y.minus(plan.used_y)),
                ),
                ..self
            },
            FlowItemView::Frame { frame, align, .. } => {
                let ruler = self.ruler.max(align.y);
                let x = align.x.position(plan.size.x.minus(frame.size.x));
                let y = plan.flow_y(self.offset, ruler);
                Cursor {
                    output: self.output.push_frame(Point::new(x, y), frame),
                    ruler,
                    offset: self.offset.plus(frame.size.y),
                    ..self
                }
            },
            FlowItemView::Placed { frame, x_align, y_align, delta, .. } => {
                let x = x_align.position(plan.size.x.minus(frame.size.x));
                let y = if item.floats_top() {
                    self.float_top_offset
                } else if item.floats_bottom() {
                    plan.size.y.minus(plan.footnotes).minus(plan.float_bottom).plus(
                        self.float_bottom_offset,
                    )
                } else {
                    match y_align {
                        Smart::Custom(Some(align)) => align.position(
                            plan.size.y.minus(frame.size.y),
                        ),
                        _ => plan.flow_y(self.offset, self.ruler),
                    }
                };
                let pos = Point::new(x, y).plus(delta.relative_to(plan.size).to_point());
                Cursor {
                    output: self.output.push_frame(pos, frame),
                    float_top_offset: if item.floats_top() {
                        self.float_top_offset.plus(frame.size.y)
                    } else {
                        self.float_top_offset
                    },
                    float_bottom_offset: if item.floats_bottom() {
                        self.float_bottom_offset.plus(frame.size.y)
                    } else {
                        self.float_bottom_offset
                    },
                    ..self
                }
            },
            FlowItemView::Footnote(frame) => {
                let y = plan.size.y.minus(plan.footnotes).plus(self.footnote_offset);
                Cursor {
                    output: self.output.push_frame(Point::with_y(y), frame),
                    footnote_offset: self.footnote_offset.plus(frame.size.y.plus(plan.gap)),
                    ..self
                }
            },
        }
    }

    /// The cursor after `items`, placed from the first to the last.
    pub open spec fn after(start: Cursor, items: Seq<FlowItemView>, plan: Plan) -> Cursor
        decreases items.len(),
    {
        if items.len() == 0 {
            start
        } else {
            Cursor::after(start, items.drop_last(), plan).with(items.last(), plan)
        }
    }
}

/// The plan by which `items` are placed in a region that was `initial`
/// large when it was entered.
pub open spec fn plan_of(
    items: Seq<FlowItemView>,
    initial: Size,
    expand: Axes<bool>,
    has_footnotes: bool,
    gap: Abs,
) -> Plan {
    Plan::new(Measure::of(items, gap), initial, expand, has_footnotes, gap)
}

/// Where `items` end up when they are placed in a region that was `initial`
/// large when it was entered.
pub open spec fn placed(
    items: Seq<FlowItemView>,
    initial: Size,
    expand: Axes<bool>,
    has_footnotes: bool,
    gap: Abs,
) -> Cursor {
    let plan = plan_of(items, initial, expand, has_footnotes, gap);
    Cursor::after(Cursor::start(plan, Measure::of(items, gap).float_top), items, plan)
}

/// Removes the weak spacing at the end of the items.
pub fn trim_weak_spacing(items: &mut Vec<FlowItem>)
    ensures
        item_views(final(items)@) == trim_weak(item_views(old(items)@)),
{
    loop
        invariant
            trim_weak(item_views(items@)) == trim_weak(item_views(old(items)@)),
        ensures
            item_views(items@) == trim_weak(item_views(old(items)@)),
        decreases items.len(),
    {
        let n = items.len();
        if n == 0 {
            break;
        }
        let weak = match &items[n - 1] {
            FlowItem::Absolute(_, weak) => *weak,
            _ => false,
        };
        assert(item_views(items@).last() == items@[n - 1]@);
        if !weak {
            break;
        }
        let ghost before = items@;
        items.pop();
        assert(item_views(items@) =~= item_views(before).drop_last());
    }
}

/// Measures the items.
pub fn measure_items(items: &Vec<FlowItem>, gap: Abs) -> (r: Measure)
    ensures
        r == Measure::of(item_views(items@), gap),
{
    let mut m = Measure::start();
    let mut i: usize = 0;
    while i < items.len()
        invariant
            i <= items.len(),
            m == Measure::of(item_views(items@.take(i as int)), gap),
        decreases items.len() - i,
    {
        let ghost prefix = item_views(items@.take(i as int + 1));
        assert(prefix.drop_last() =~= item_views(items@.take(i as int)));
        assert(prefix.last() == items@[i as int]@);
        match &items[i] {
            FlowItem::Absolute(v, _) => {
                m.used = Size::new(m.used.x, m.used.y.plus(*v));
            },
            FlowItem::Fractional(v) => {
                m.fr = m.fr.plus(*v);
            },
            FlowItem::Frame { frame, .. } => {
                m.used = Size::new(m.used.x.max(frame.width()), m.used.y.plus(frame.height()));
            },
            FlowItem::Placed { frame, float, y_align, .. } => {
                if *float {
                    match y_align {
                        Smart::Custom(Some(FixedAlignment::Start)) => {
                            m.float_top = m.float_top.plus(frame.height());
                        },
                        Smart::Custom(Some(FixedAlignment::End)) => {
                            m.float_bottom = m.float_bottom.plus(frame.height());
                        },
                        _ => {},
                    }
                }
            },
            FlowItem::Footnote(frame) => {
                m.footnotes = m.footnotes.plus(frame.height());
                if !m.first_footnote {
                    m.footnotes = m.footnotes.plus(gap);
                }
                m.first_footnote = false;
                m.used = Size::new(m.used.x.max(frame.width()), m.used.y);
            },
        }
        i += 1;
    }
    assert(items@.take(items.len() as int) =~= items@);
    m
}

/// Builds the frame of a region from its items, which it takes out of
/// `items`. Returns the frame and where the main cursor ends.
pub fn place_items(items: &mut Vec<FlowItem>, plan: Plan, float_top: Abs) -> (r: (Frame, Abs))
    ensures
        final(items)@.len() == 0,
        r.0@ == Cursor::after(
            Cursor::start(plan, float_top),
            item_views(old(items)@),
            plan,
        ).output,
        r.1 == Cursor::after(
            Cursor::start(plan, float_top),
            item_views(old(items)@),
            plan,
        ).offset,
{
    let mut output = Frame::soft(plan.size);
    let mut ruler = FixedAlignment::Start;
    let mut float_top_offset = Abs::zero();
    let mut offset = float_top;
    let mut float_bottom_offset = Abs::zero();
    let mut footnote_offset = Abs::zero();
    let ghost start = Cursor::start(plan, float_top);
    let ghost all = item_views(items@);
    let n = items.len();
    let mut i: usize = 0;
    while i < n
        invariant
            i <= n,
            n == items@.len(),
            all.len() == n,
            forall|j: int| i <= j < n ==> (#[trigger] items@[j])@ == all[j],
            Cursor::after(start, all.take(i as int), plan) == (Cursor {
                output: output@,
                ruler,
                float_top_offset,
                offset,
                float_bottom_offset,
                footnote_offset,
            }),
        decreases n - i,
    {
        let ghost prefix = all.take(i as int + 1);
        assert(prefix.drop_last() =~= all.take(i as int));
        assert(prefix.last() == items@[i as int]@);
        let mut item = FlowItem::Fractional(Fr::zero());
        core::mem::swap(&mut items[i], &mut item);
        match item {
            FlowItem::Absolute(v, _) => {
                offset = offset.plus(v);
            },
            FlowItem::Fractional(v) => {
                offset = offset.plus(v.share(plan.fr, plan.initial_y.minus(plan.used_y)));
            },
            FlowItem::Frame { frame, align, .. } => {
                ruler = ruler.max(align.y);
                let x = align.x.position(plan.size.x.minus(frame.width()));
                let y = plan.flow_y(offset, ruler);
                offset = offset.plus(frame.height());
                output.push_frame(Point::new(x, y), frame);
            },
            FlowItem::Placed { frame, x_align, y_align, delta, float, .. } => {
                let x = x_align.position(plan.size.x.minus(frame.width()));
                let top = float && y_align == Smart::Custom(Some(FixedAlignment::Start));
                let bottom = float && y_align == Smart::Custom(Some(FixedAlignment::End));
                let y = if top {
                    let y = float_top_offset;
                    float_top_offset = float_top_offset.plus(frame.height());
                    y
                } else if bottom {
                    let y = plan.size.y.minus(plan.footnotes).minus(plan.float_bottom).plus(
                        float_bottom_offset,
                    );
                    float_bottom_offset = float_bottom_offset.plus(frame.height());
                    y
                } else {
                    match y_align {
                        Smart::Custom(Some(align)) => align.position(
                            plan.size.y.minus(frame.height()),
                        ),
                        _ => plan.flow_y(offset, ruler),
                    }
                };
                let pos = Point::new(x, y).plus(delta.relative_to(plan.size).to_point());
                output.push_frame(pos, frame);
            },
            FlowItem::Footnote(frame) => {
                let y = plan.size.y.minus(plan.footnotes).plus(footnote_offset);
                footnote_offset = footnote_offset.plus(frame.height().plus(plan.gap));
                output.push_frame(Point::with_y(y), frame);
            },
        }
        i += 1;
    }
    assert(all.take(n as int) =~= all);
    items.clear();
    (output, offset)
}

} // verus!
