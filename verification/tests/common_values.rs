use flow_layout::content::{
    Alignment, Binding, BlockElem, Content, Costs, CounterKey, CounterUpdate, CounterUpdateElem, Elem, FlowElem, FlushElem, FootnoteBody, FootnoteElem, Location, Margin, PageElem, Parity, PlaceElem, Spacing, Span, StyledElem, Styles, Tag, TagElem, VElem,
};
use flow_layout::engine::{Engine, LayoutError, Route, MAX_LAYOUT_DEPTH};
use flow_layout::frame::{Frame, FrameItem, FrameKind};
use flow_layout::geom::{
    Abs, Axes, Dir, FixedAlignment, Fr, Point, Ratio, Rel, Sides, Size, Smart, RATIO_ONE,
};
use flow_layout::page::{PageCounter, A4_WIDTH};
use flow_layout::par::{Linebreaks, ParElem, ParbreakElem};
use flow_layout::regions::{Region, Regions};

fn abs(raw: i64) -> Abs {
    Abs::new(raw)
}

#[test]
fn abs_sums_and_differences_are_exact_in_range() {
    assert_eq!(abs(3).plus(abs(4)), abs(7));
    assert_eq!(abs(3).minus(abs(10)), abs(-7));
    assert_eq!(abs(-5).plus(abs(5)), Abs::zero());
}

#[test]
fn abs_infinity_absorbs_sums() {
    assert_eq!(Abs::inf().plus(abs(-100)), Abs::inf());
    assert_eq!(abs(1).plus(Abs::inf()), Abs::inf());
    assert_eq!(Abs::inf().minus(abs(7)), Abs::inf());
    assert_eq!(Abs::inf().minus(Abs::inf()), Abs::inf());
    assert!(!Abs::inf().is_finite());
    assert!(abs(i64::MAX - 1).is_finite());
}

#[test]
fn abs_saturates_instead_of_wrapping() {
    assert_eq!(abs(i64::MAX - 1).plus(abs(1)), Abs::inf());
    assert_eq!(abs(i64::MAX - 1).plus(abs(i64::MAX - 1)), Abs::inf());
    assert_eq!(abs(i64::MIN).minus(abs(1)), abs(i64::MIN));
    assert_eq!(abs(i64::MIN).plus(abs(i64::MIN)), abs(i64::MIN));
    assert_eq!(abs(5).minus(Abs::inf()), abs(i64::MIN));
}

#[test]
fn abs_infinity_is_greater_than_any_finite_length() {
    assert!(Abs::inf().fits(abs(i64::MAX - 1)));
    assert!(!abs(i64::MAX - 1).fits(Abs::inf()));
    assert_eq!(abs(5).min(Abs::inf()), abs(5));
    assert_eq!(abs(5).max(Abs::inf()), Abs::inf());
}

#[test]
fn abs_fits_compares_lengths() {
    assert!(abs(10).fits(abs(10)));
    assert!(abs(10).fits(abs(9)));
    assert!(!abs(10).fits(abs(11)));
    assert!(abs(0).fits(abs(-1)));
}

#[test]
fn abs_times_and_over() {
    assert_eq!(abs(7).times(3), abs(21));
    assert_eq!(abs(7).times(0), Abs::zero());
    assert_eq!(Abs::inf().times(0), Abs::zero());
    assert_eq!(Abs::inf().times(2), Abs::inf());
    assert_eq!(abs(7).over(2), abs(3));
    assert_eq!(abs(-7).over(2), abs(-3));
    assert_eq!(Abs::inf().over(2), Abs::inf());
    assert_eq!(abs(i64::MAX - 1).times(usize::MAX), Abs::inf());
}

#[test]
fn abs_fraction_rounds_toward_zero() {
    assert_eq!(abs(42).fraction(5, 42), abs(5));
    assert_eq!(abs(A4_WIDTH).fraction(5, 42), abs(70866));
    assert_eq!(abs(-10).fraction(1, 3), abs(-3));
    assert_eq!(Abs::inf().fraction(1, 3), Abs::inf());
}

#[test]
fn ratio_of_a_whole() {
    let half = Ratio { raw: RATIO_ONE / 2 };
    assert_eq!(half.of(abs(100)), abs(50));
    assert_eq!(half.of(abs(-101)), abs(-50));
    assert_eq!(half.of(Abs::inf()), Abs::zero());
    assert_eq!(Ratio::one().of(abs(77)), abs(77));
    assert_eq!(Ratio::zero().of(abs(77)), Abs::zero());
    assert!(half.is_positive());
    assert!(!Ratio::zero().is_positive());
    assert!(!Ratio { raw: -1 }.is_positive());
}

#[test]
fn rel_is_ratio_of_whole_plus_absolute_part() {
    let rel = Rel { rel: Ratio { raw: RATIO_ONE / 4 }, abs: abs(10) };
    assert_eq!(rel.relative_to(abs(200)), abs(60));
    assert_eq!(rel.relative_to(Abs::inf()), abs(10));
    assert_eq!(Rel::absolute(abs(5)).relative_to(abs(1000)), abs(5));
    assert_eq!(Rel::zero().relative_to(abs(1000)), Abs::zero());
}

#[test]
fn fr_share_is_proportional() {
    let one = Fr { raw: 1000 };
    let two = Fr { raw: 2000 };
    let total = one.plus(two);
    assert_eq!(total, Fr { raw: 3000 });
    assert_eq!(one.share(total, abs(90)), abs(30));
    assert_eq!(two.share(total, abs(90)), abs(60));
    assert_eq!(one.share(total, abs(100)), abs(33));
}

#[test]
fn fr_share_of_nothing_is_nothing() {
    let one = Fr { raw: 1000 };
    assert_eq!(one.share(Fr::zero(), abs(90)), Abs::zero());
    assert_eq!(one.share(one, abs(-5)), Abs::zero());
    assert_eq!(one.share(one, Abs::zero()), Abs::zero());
    assert_eq!(one.share(one, Abs::inf()), Abs::zero());
    assert_eq!(Fr { raw: u64::MAX }.plus(one), Fr { raw: u64::MAX });
}

#[test]
fn alignment_positions() {
    assert_eq!(FixedAlignment::Start.position(abs(100)), Abs::zero());
    assert_eq!(FixedAlignment::Center.position(abs(100)), abs(50));
    assert_eq!(FixedAlignment::Center.position(abs(101)), abs(50));
    assert_eq!(FixedAlignment::End.position(abs(100)), abs(100));
}

#[test]
fn alignment_order_is_start_center_end() {
    let (start, center, end) = (FixedAlignment::Start, FixedAlignment::Center, FixedAlignment::End);
    assert_eq!(start.max(start), start);
    assert_eq!(start.max(center), center);
    assert_eq!(center.max(start), center);
    assert_eq!(center.max(end), end);
    assert_eq!(end.max(start), end);
    assert_eq!(end.max(center), end);
}

#[test]
fn sizes_and_points() {
    let a = Size::new(abs(10), abs(20));
    let b = Size::new(abs(1), abs(2));
    assert_eq!(a.plus(b), Size::new(abs(11), abs(22)));
    assert_eq!(a.minus(b), Size::new(abs(9), abs(18)));
    assert_eq!(a.min(Size::new(abs(5), abs(50))), Size::new(abs(5), abs(20)));
    assert!(Size::zero().is_zero());
    assert!(!a.is_zero());
    assert_eq!(Size::new(abs(1), Abs::inf()).finite(), Axes { x: true, y: false });
    assert_eq!(Axes { x: true, y: false }.select(a, b), Size::new(abs(10), abs(2)));
    assert_eq!(Point::with_x(abs(3)).plus(Point::with_y(abs(4))), Point::new(abs(3), abs(4)));
    assert!(Point::zero().is_zero());
    assert_eq!(a.to_point(), Point::new(abs(10), abs(20)));
}

#[test]
fn sides_sum_by_axis_and_mirror() {
    let sides = Sides { left: abs(1), top: abs(2), right: abs(3), bottom: abs(4) };
    assert_eq!(sides.sum_by_axis(), Size::new(abs(4), abs(6)));
    assert_eq!(
        sides.mirrored(),
        Sides { left: abs(3), top: abs(2), right: abs(1), bottom: abs(4) }
    );
}

#[test]
fn parity_matches_numbers() {
    assert!(Parity::Even.matches(2));
    assert!(!Parity::Even.matches(3));
    assert!(Parity::Odd.matches(3));
    assert!(!Parity::Odd.matches(0));
}

#[test]
fn binding_swaps_on_alternating_pages() {
    assert!(!Binding::Left.swap(1));
    assert!(Binding::Left.swap(2));
    assert!(Binding::Right.swap(1));
    assert!(!Binding::Right.swap(2));
    for page in 1..50usize {
        assert_ne!(Binding::Left.swap(page), Binding::Left.swap(page + 1));
        assert_ne!(Binding::Right.swap(page), Binding::Right.swap(page + 1));
    }
}

#[test]
fn route_counts_depth() {
    let root = Route::root();
    assert_eq!(root.depth, 0);
    assert_eq!(root.extend().depth, 1);
    assert!(root.within(MAX_LAYOUT_DEPTH));
    assert!(Route { depth: MAX_LAYOUT_DEPTH }.within(MAX_LAYOUT_DEPTH));
    assert!(!Route { depth: MAX_LAYOUT_DEPTH + 1 }.within(MAX_LAYOUT_DEPTH));
    assert_eq!(Route { depth: usize::MAX }.extend().depth, usize::MAX);
    assert_eq!(Engine::new().route, Route::root());
}

#[test]
fn regions_single_and_repeat() {
    let size = Size::new(abs(100), abs(200));
    let expand = Axes { x: true, y: false };
    let single = Regions::single(Region::new(size, expand));
    assert_eq!(single.size, size);
    assert_eq!(single.full, abs(200));
    assert!(single.backlog.is_empty());
    assert_eq!(single.last, None);
    assert!(!single.root);
    assert!(single.in_last());
    assert!(!single.may_progress());
    let repeat = Regions::repeat(size, expand);
    assert_eq!(repeat.last, Some(abs(200)));
    assert!(repeat.in_last());
    assert!(repeat.may_progress());
    assert_eq!(repeat.base(), size);
}

#[test]
fn regions_walk_through_backlog_then_repeat_last() {
    let mut regions = Regions {
        size: Size::new(abs(100), abs(10)),
        full: abs(10),
        backlog: vec![abs(20), abs(30)],
        last: Some(abs(40)),
        expand: Axes { x: false, y: false },
        root: false,
    };
    assert!(!regions.in_last());
    assert_eq!(regions.at(0), Some(Size::new(abs(100), abs(10))));
    assert_eq!(regions.at(1), Some(Size::new(abs(100), abs(20))));
    assert_eq!(regions.at(2), Some(Size::new(abs(100), abs(30))));
    assert_eq!(regions.at(3), Some(Size::new(abs(100), abs(40))));
    assert_eq!(regions.at(99), Some(Size::new(abs(100), abs(40))));
    regions.next();
    assert_eq!(regions.size.y, abs(20));
    assert_eq!(regions.full, abs(20));
    assert_eq!(regions.backlog, vec![abs(30)]);
    regions.next();
    regions.next();
    assert_eq!(regions.size.y, abs(40));
    assert!(regions.in_last());
    regions.size.y = abs(5);
    assert!(!regions.in_last());
    regions.next();
    assert_eq!(regions.size.y, abs(40));
    assert!(regions.in_last());
}

#[test]
fn regions_without_last_end_with_the_backlog() {
    let mut regions = Regions {
        size: Size::new(abs(100), abs(10)),
        full: abs(10),
        backlog: vec![abs(20)],
        last: None,
        expand: Axes { x: false, y: false },
        root: true,
    };
    assert_eq!(regions.at(2), None);
    regions.next();
    assert!(regions.in_last());
    regions.size.y = abs(-3);
    assert!(regions.in_last());
    assert!(!regions.is_full());
    regions.next();
    assert_eq!(regions.size.y, abs(-3));
    let copy = regions.with_root(false);
    assert!(!copy.root);
    assert_eq!(copy.size, regions.size);
    assert_eq!(regions.clone(), regions);
}

#[test]
fn regions_are_full_when_nothing_is_left_and_more_follow() {
    let mut regions = Regions {
        size: Size::new(abs(100), abs(0)),
        full: abs(10),
        backlog: vec![abs(20)],
        last: None,
        expand: Axes { x: false, y: false },
        root: false,
    };
    assert!(regions.is_full());
    regions.size.y = abs(1);
    assert!(!regions.is_full());
    regions.size.y = abs(-1);
    assert!(regions.is_full());
}

#[test]
fn frames_hold_items_in_order() {
    let mut frame = Frame::soft(Size::new(abs(10), abs(20)));
    assert!(frame.is_empty());
    assert_eq!(frame.kind, FrameKind::Soft);
    assert_eq!(Frame::hard(Size::zero()).kind, FrameKind::Hard);
    frame.push(Point::with_x(abs(1)), FrameItem::Text(1));
    frame.push_frame(Point::with_x(abs(2)), Frame::soft(Size::zero()));
    frame.prepend_frame(Point::with_x(abs(3)), Frame::hard(Size::zero()));
    assert_eq!(frame.items.len(), 3);
    assert_eq!(frame.items[0], (Point::with_x(abs(3)), FrameItem::Group(Frame::hard(Size::zero()))));
    assert_eq!(frame.items[1], (Point::with_x(abs(1)), FrameItem::Text(1)));
    assert_eq!(frame.items[2], (Point::with_x(abs(2)), FrameItem::Group(Frame::soft(Size::zero()))));
    assert_eq!(frame.width(), abs(10));
    assert_eq!(frame.height(), abs(20));
    assert_eq!(frame.size(), Size::new(abs(10), abs(20)));
}

#[test]
fn frames_translate_every_item() {
    let mut frame = Frame::soft(Size::new(abs(10), abs(20)));
    frame.push(Point::new(abs(1), abs(2)), FrameItem::Text(1));
    frame.push(Point::new(abs(3), abs(4)), FrameItem::Link(7, Size::zero()));
    frame.translate(Point::new(abs(10), abs(100)));
    assert_eq!(frame.items[0].0, Point::new(abs(11), abs(102)));
    assert_eq!(frame.items[1].0, Point::new(abs(13), abs(104)));
    assert_eq!(frame.size(), Size::new(abs(10), abs(20)));
    frame.set_size(Size::new(abs(1), abs(1)));
    assert_eq!(frame.size(), Size::new(abs(1), abs(1)));
    assert_eq!(frame.items.len(), 2);
}

#[test]
fn frames_take_tags_below_and_on_top() {
    let tag = |n: u64| Tag { elem: Content::new(Elem::Flush(FlushElem {})).located(Location(n)) };
    let mut frame = Frame::soft(Size::zero());
    frame.push(Point::zero(), FrameItem::Text(1));
    frame.prepend_tags(&vec![tag(1), tag(2)]);
    frame.push_tags(Point::with_y(abs(9)), &vec![tag(3)]);
    assert_eq!(frame.items.len(), 4);
    assert_eq!(frame.items[0], (Point::zero(), FrameItem::Tag(tag(1))));
    assert_eq!(frame.items[1], (Point::zero(), FrameItem::Tag(tag(2))));
    assert_eq!(frame.items[2], (Point::zero(), FrameItem::Text(1)));
    assert_eq!(frame.items[3], (Point::with_y(abs(9)), FrameItem::Tag(tag(3))));
}

#[test]
fn frame_clone_is_deep_and_equal() {
    let mut inner = Frame::soft(Size::new(abs(1), abs(2)));
    inner.push(Point::zero(), FrameItem::Text(5));
    let mut outer = Frame::hard(Size::new(abs(3), abs(4)));
    outer.push_frame(Point::with_x(abs(1)), inner);
    let copy = outer.clone();
    assert_eq!(copy, outer);
}

#[test]
fn invisible_frames_take_no_space_and_hold_only_marks() {
    let tag = Tag { elem: Content::new(Elem::Flush(FlushElem {})) };
    let mut frame = Frame::soft(Size::zero());
    assert!(frame.is_invisible());
    frame.push(Point::zero(), FrameItem::Tag(tag));
    frame.push(Point::zero(), FrameItem::Link(1, Size::new(abs(5), abs(5))));
    assert!(frame.is_invisible());
    frame.push(Point::zero(), FrameItem::Text(1));
    assert!(!frame.is_invisible());
    let sized = Frame::soft(Size::new(abs(1), abs(0)));
    assert!(!sized.is_invisible());
}

#[test]
fn page_counter_steps_and_takes_updates() {
    let mut counter = PageCounter::new();
    assert_eq!(counter, PageCounter { physical: 1, logical: 1 });
    counter.step();
    assert_eq!(counter, PageCounter { physical: 2, logical: 2 });
    let update = |update: CounterUpdate, key: CounterKey| {
        FrameItem::Tag(Tag {
            elem: Content::new(Elem::CounterUpdate(CounterUpdateElem { key, update })),
        })
    };
    let mut inner = Frame::soft(Size::zero());
    inner.push(Point::zero(), update(CounterUpdate::Reset(10), CounterKey::Page));
    inner.push(Point::zero(), update(CounterUpdate::Step, CounterKey::Page));
    let mut frame = Frame::soft(Size::zero());
    frame.push(Point::zero(), update(CounterUpdate::Reset(99), CounterKey::Other(1)));
    frame.push_frame(Point::zero(), inner);
    frame.push(Point::zero(), update(CounterUpdate::Step, CounterKey::Page));
    frame.push(Point::zero(), FrameItem::Text(3));
    counter.visit(&frame);
    assert_eq!(counter, PageCounter { physical: 2, logical: 12 });
    let mut top = PageCounter { physical: usize::MAX, logical: usize::MAX };
    top.step();
    assert_eq!(top, PageCounter { physical: usize::MAX, logical: usize::MAX });
}

#[test]
fn content_copies_are_equal() {
    let body = Content::new(Elem::Sequence(vec![])).located(Location(4));
    let note = Content::new(Elem::Footnote(FootnoteElem { body: FootnoteBody::Content(body) }));
    assert_eq!(note.clone(), note);
    assert_eq!(note.location, None);
    let reference = FootnoteElem { body: FootnoteBody::Reference(3) };
    assert!(reference.is_ref());
    match &*note.elem {
        Elem::Footnote(elem) => assert!(!elem.is_ref()),
        _ => panic!("expected a footnote"),
    }
}

#[test]
fn public_items_of_paragraphs_exist() {
    let par = ParElem {
        leading: abs(650),
        spacing: abs(1200),
        justify: false,
        linebreaks: Smart::Custom(Linebreaks::Optimized),
        first_line_indent: Abs::zero(),
        hanging_indent: Abs::zero(),
        shrink: true,
        children: vec![],
    };
    assert_eq!(par.linebreaks, Smart::Custom(Linebreaks::Optimized));
    assert_ne!(Linebreaks::Simple, Linebreaks::Optimized);
    assert_eq!(ParbreakElem {}, ParbreakElem {});
    let flow = FlowElem { children: vec![] };
    assert!(flow.children.is_empty());
    let _ = (
        Alignment { x: None, y: None },
        Costs { orphan: Ratio::zero(), widow: Ratio::zero() },
        Dir::RTL,
        LayoutError::ExpectedPage(Span::detached()),
        Margin {
            sides: Sides { left: None, top: None, right: None, bottom: None },
            two_sided: None,
        },
        Spacing::Fr(Fr::zero()),
        VElem { amount: Spacing::Fr(Fr::zero()), weakness: 0 },
    );
    let _: Option<(BlockElem, PlaceElem, PageElem, StyledElem, Styles, TagElem)> = None;
}
