use flow_layout::content::{
    Alignment, BlockElem, ColbreakElem, Content, Costs, DocumentInfo, Elem, FlowElem, FlushElem, FootnoteBody, FootnoteElem, Location, PlaceElem, Spacing, Span, StyledElem, Styles, Tag, TagElem, VElem,
};
use flow_layout::engine::{Engine, LayoutError, Route, MAX_LAYOUT_DEPTH};
use flow_layout::flow::fragment::{layout_fragment, layout_frame};
use flow_layout::flow::{collect_footnotes, layout_inline, realize_flow, FlowLayouter};
use flow_layout::frame::{Frame, FrameItem, FrameKind};
use flow_layout::geom::{
    Abs, Axes, Dir, FixedAlignment, Fr, Point, Ratio, Rel, Size, Smart, RATIO_ONE,
};
use flow_layout::items::FlowItem;
use flow_layout::par::{ParElem, ParbreakElem};
use flow_layout::regions::{Region, Regions};

fn abs(raw: i64) -> Abs {
    Abs::new(raw)
}

fn size(x: i64, y: i64) -> Size {
    Size::new(abs(x), abs(y))
}

fn at(x: i64, y: i64) -> Point {
    Point::new(abs(x), abs(y))
}

fn empty() -> Content {
    Content::new(Elem::Sequence(vec![]))
}

fn styles() -> Styles {
    Styles {
        dir: Dir::LTR,
        align: Axes { x: FixedAlignment::Start, y: FixedAlignment::Start },
        costs: Costs { orphan: Ratio::one(), widow: Ratio::one() },
        footnote_separator: empty(),
        footnote_clearance: Abs::zero(),
        footnote_gap: Abs::zero(),
        column_gutter: Rel::zero(),
        document: DocumentInfo { title: None, author: None, keywords: None },
    }
}

fn line(width: i64, height: i64, id: u64) -> Frame {
    let mut frame = Frame::soft(size(width, height));
    frame.push(Point::zero(), FrameItem::Text(id));
    frame
}

fn par_elem(leading: i64, lines: Vec<Frame>) -> ParElem {
    ParElem {
        leading: abs(leading),
        spacing: Abs::zero(),
        justify: false,
        linebreaks: Smart::Auto,
        first_line_indent: Abs::zero(),
        hanging_indent: Abs::zero(),
        shrink: true,
        children: lines,
    }
}

fn par(leading: i64, lines: Vec<Frame>) -> Content {
    Content::new(Elem::Par(par_elem(leading, lines)))
}

fn lines(count: u64, height: i64) -> Vec<Frame> {
    (0..count).map(|id| line(40, height, id)).collect()
}

fn v(amount: i64, weak: bool) -> Content {
    Content::new(Elem::V(VElem {
        amount: Spacing::Rel(Rel::absolute(abs(amount))),
        weakness: if weak { 1 } else { 0 },
    }))
}

fn fr(raw: u64) -> Content {
    Content::new(Elem::V(VElem { amount: Spacing::Fr(Fr { raw }), weakness: 0 }))
}

fn block(body: Content, sticky: bool) -> Content {
    Content::new(Elem::Block(BlockElem { body, sticky, rootable: false }))
}

fn place(body: Content, float: bool, y: Smart<Option<FixedAlignment>>, clearance: i64) -> Content {
    Content::new(Elem::Place(PlaceElem {
        body,
        float,
        clearance: abs(clearance),
        alignment: match y {
            Smart::Auto => Smart::Auto,
            Smart::Custom(y) => Smart::Custom(Alignment { x: None, y }),
        },
        dx: Rel::zero(),
        dy: Rel::zero(),
    }))
}

fn tag(location: u64) -> Tag {
    Tag { elem: Content::new(Elem::Flush(FlushElem {})).located(Location(location)) }
}

fn footnote(location: u64, body: Content) -> Tag {
    Tag {
        elem: Content::new(Elem::Footnote(FootnoteElem { body: FootnoteBody::Content(body) }))
            .located(Location(location)),
    }
}

fn with_styles(children: Vec<Content>, styles: &Styles) -> Content {
    Content::new(Elem::Flow(FlowElem {
        children: children
            .into_iter()
            .map(|child| StyledElem { child, styles: styles.clone() })
            .collect(),
    }))
}

fn flow(children: Vec<Content>) -> Content {
    with_styles(children, &styles())
}

fn regions(width: i64, height: i64, backlog: &[i64], last: Option<i64>) -> Regions {
    Regions {
        size: size(width, height),
        full: abs(height),
        backlog: backlog.iter().map(|&h| abs(h)).collect(),
        last: last.map(abs),
        expand: Axes { x: false, y: false },
        root: false,
    }
}

fn root(mut regions: Regions) -> Regions {
    regions.root = true;
    regions
}

fn layout(content: &Content, regions: Regions) -> Vec<Frame> {
    layout_fragment(&Engine::new(), content, &styles(), regions).unwrap()
}

fn group(frame: &Frame, index: usize) -> (Point, &Frame) {
    match &frame.items[index] {
        (pos, FrameItem::Group(inner)) => (*pos, inner),
        other => panic!("expected a group, found {:?}", other),
    }
}

fn ys(frame: &Frame) -> Vec<i64> {
    frame.items.iter().map(|(pos, _)| pos.y.raw).collect()
}

#[test]
fn lines_of_a_paragraph_are_stacked_with_leading() {
    let content = flow(vec![par(5, lines(2, 10))]);
    let frames = layout(&content, regions(100, 100, &[], None));
    assert_eq!(frames.len(), 1);
    let frame = &frames[0];
    assert_eq!(frame.size(), size(40, 25));
    assert_eq!(frame.kind, FrameKind::Soft);
    assert_eq!(frame.items.len(), 2);
    assert_eq!(group(frame, 0), (at(0, 0), &line(40, 10, 0)));
    assert_eq!(group(frame, 1), (at(0, 15), &line(40, 10, 1)));
}

#[test]
fn content_that_is_no_flow_is_laid_out_as_a_flow_of_itself() {
    let alone = par(5, lines(2, 10));
    let sequence = Content::new(Elem::Sequence(vec![par(5, lines(2, 10))]));
    let expected = layout(&flow(vec![par(5, lines(2, 10))]), regions(100, 100, &[], None));
    assert_eq!(layout(&alone, regions(100, 100, &[], None)), expected);
    assert_eq!(layout(&sequence, regions(100, 100, &[], None)), expected);
    let realized = realize_flow(&alone, &styles());
    assert_eq!(realized.children, vec![StyledElem { child: alone, styles: styles() }]);
}

#[test]
fn styled_content_brings_its_own_styles() {
    let mut centered = styles();
    centered.align = Axes { x: FixedAlignment::Center, y: FixedAlignment::Start };
    let child = par(0, lines(1, 10));
    let styled = Content::new(Elem::Styled(StyledElem {
        child: child.clone(),
        styles: centered.clone(),
    }));
    let realized = realize_flow(&Content::new(Elem::Sequence(vec![styled, child.clone()])), &styles());
    assert_eq!(
        realized.children,
        vec![
            StyledElem { child: child.clone(), styles: centered },
            StyledElem { child, styles: styles() },
        ]
    );
}

#[test]
fn an_expanding_flow_fills_its_region() {
    let content = flow(vec![par(0, lines(1, 10))]);
    let mut into = regions(100, 60, &[], None);
    into.expand = Axes { x: true, y: true };
    let frames = layout(&content, into);
    assert_eq!(frames.len(), 1);
    // The line is as wide as the region, and the frame as large.
    assert_eq!(frames[0].size(), size(100, 60));
    assert_eq!(group(&frames[0], 0).1.size(), size(100, 10));
}

#[test]
fn frames_are_aligned_in_the_space_that_is_left() {
    let mut centered = styles();
    centered.align = Axes { x: FixedAlignment::Center, y: FixedAlignment::End };
    let content = with_styles(vec![par(0, lines(1, 10))], &centered);
    let into = Regions::single(Region::new(size(100, 60), Axes { x: false, y: true }));
    let frames = layout_fragment(&Engine::new(), &content, &centered, into).unwrap();
    // The frame is as high as the region, and the line sits at its end.
    assert_eq!(frames[0].size(), size(40, 60));
    assert_eq!(group(&frames[0], 0).0, at(0, 50));
    // A flow that holds a single block hands the expansion on.
    let inner = with_styles(vec![par(0, lines(1, 10))], &centered);
    let outer = with_styles(vec![block(inner, false)], &centered);
    let into = Regions::single(Region::new(size(100, 60), Axes { x: false, y: true }));
    let frames = layout_fragment(&Engine::new(), &outer, &centered, into).unwrap();
    assert_eq!(frames[0].size(), size(40, 60));
    // The block is as high as the region, and the line sits at its end.
    assert_eq!(group(&frames[0], 0).0, at(0, 0));
    assert_eq!(group(&frames[0], 0).1.size(), size(40, 60));
    assert_eq!(group(group(&frames[0], 0).1, 0).0, at(0, 50));
    // A flow that holds more than a block does not hand it on.
    let inner = with_styles(vec![par(0, lines(1, 10))], &centered);
    let outer = with_styles(vec![block(inner, false), v(1, false)], &centered);
    let into = Regions::single(Region::new(size(100, 60), Axes { x: false, y: true }));
    let frames = layout_fragment(&Engine::new(), &outer, &centered, into).unwrap();
    assert_eq!(frames[0].size(), size(40, 60));
    assert_eq!(group(&frames[0], 0).0, at(0, 49));
    assert_eq!(group(&frames[0], 0).1.size(), size(40, 10));
}

#[test]
fn the_ruler_never_goes_back() {
    let mut end = styles();
    end.align.y = FixedAlignment::End;
    let content = Content::new(Elem::Flow(FlowElem {
        children: vec![
            StyledElem { child: par(0, lines(1, 10)), styles: end },
            StyledElem { child: par(0, lines(1, 10)), styles: styles() },
        ],
    }));
    let into = regions(100, 100, &[], None);
    let mut layouter_regions = into;
    layouter_regions.expand = Axes { x: false, y: true };
    // Use a flow that fills the region through fractional spacing of no
    // weight: footnotes and fractions make the frame as high as the region.
    let with_fr = match &*content.elem {
        Elem::Flow(flow) => {
            let mut children: Vec<StyledElem> = flow.children.iter().map(|c| c.clone()).collect();
            children.push(StyledElem { child: fr(1), styles: styles() });
            Content::new(Elem::Flow(FlowElem { children }))
        }
        _ => unreachable!(),
    };
    let frames = layout(&with_fr, regions(100, 100, &[], None));
    assert_eq!(frames[0].size(), size(40, 100));
    // Both lines are pushed to the end, though only the first asks for it.
    assert_eq!(ys(&frames[0]), vec![80, 90]);
}

#[test]
fn weak_spacing_disappears_at_the_edges_of_a_region() {
    let content = flow(vec![v(7, true), par(0, lines(1, 10)), v(9, true)]);
    let frames = layout(&content, regions(100, 100, &[], None));
    assert_eq!(frames[0].size(), size(40, 10));
    assert_eq!(ys(&frames[0]), vec![0]);
    let plain = flow(vec![par(0, lines(1, 10))]);
    assert_eq!(layout(&plain, regions(100, 100, &[], None)), frames);
}

#[test]
fn weak_spacing_between_frames_stays() {
    let content = flow(vec![par(0, lines(1, 10)), v(7, true), par(0, lines(1, 10))]);
    let frames = layout(&content, regions(100, 100, &[], None));
    assert_eq!(frames[0].size(), size(40, 27));
    assert_eq!(ys(&frames[0]), vec![0, 17]);
}

#[test]
fn strong_spacing_stays_everywhere() {
    let content = flow(vec![v(7, false), par(0, lines(1, 10)), v(9, false)]);
    let frames = layout(&content, regions(100, 100, &[], None));
    assert_eq!(frames[0].size(), size(40, 26));
    assert_eq!(ys(&frames[0]), vec![7]);
}

#[test]
fn spacing_is_relative_to_the_height_of_the_region() {
    let half = Content::new(Elem::V(VElem {
        amount: Spacing::Rel(Rel { rel: Ratio { raw: RATIO_ONE / 2 }, abs: abs(1) }),
        weakness: 0,
    }));
    let content = flow(vec![half, par(0, lines(1, 10))]);
    let frames = layout(&content, regions(100, 60, &[], None));
    assert_eq!(ys(&frames[0]), vec![31]);
}

#[test]
fn fractional_spacing_shares_what_is_left() {
    let content = flow(vec![
        par(0, lines(1, 10)),
        fr(1000),
        par(0, lines(1, 10)),
        fr(3000),
        par(0, lines(1, 10)),
    ]);
    let frames = layout(&content, regions(100, 100, &[], None));
    assert_eq!(frames.len(), 1);
    assert_eq!(frames[0].size(), size(40, 100));
    // 70 are left: a quarter of them, rounded down, and three quarters.
    assert_eq!(ys(&frames[0]), vec![0, 27, 89]);
}

#[test]
fn fractional_spacing_in_an_unbounded_region_takes_nothing() {
    let content = flow(vec![par(0, lines(1, 10)), fr(1000), par(0, lines(1, 10))]);
    let into = Regions::single(Region::new(
        Size::new(abs(100), Abs::inf()),
        Axes { x: false, y: false },
    ));
    let frames = layout(&content, into);
    assert_eq!(frames[0].size(), size(40, 20));
    assert_eq!(ys(&frames[0]), vec![0, 10]);
}

#[test]
fn a_paragraph_breaks_across_regions() {
    let mut free = styles();
    free.costs = Costs { orphan: Ratio::zero(), widow: Ratio::zero() };
    let content = with_styles(vec![par(0, lines(5, 10))], &free);
    let frames = layout(&content, regions(100, 40, &[], Some(40)));
    assert_eq!(frames.len(), 2);
    assert_eq!(ys(&frames[0]), vec![0, 10, 20, 30]);
    // The last line is a widow.
    assert_eq!(ys(&frames[1]), vec![0]);
}

#[test]
fn widows_are_prevented() {
    let content = flow(vec![par(0, lines(5, 10))]);
    let frames = layout(&content, regions(100, 40, &[], Some(40)));
    assert_eq!(frames.len(), 2);
    assert_eq!(ys(&frames[0]), vec![0, 10, 20]);
    assert_eq!(ys(&frames[1]), vec![0, 10]);
}

#[test]
fn orphans_are_prevented() {
    let content = flow(vec![par(0, lines(1, 25)), par(0, lines(4, 10))]);
    let frames = layout(&content, regions(100, 40, &[], Some(40)));
    assert_eq!(frames.len(), 2);
    // The first line of the second paragraph would fit, but not with the
    // second.
    assert_eq!(ys(&frames[0]), vec![0]);
    assert_eq!(ys(&frames[1]), vec![0, 10, 20, 30]);
    let mut free = styles();
    free.costs = Costs { orphan: Ratio::zero(), widow: Ratio::one() };
    let content = with_styles(vec![par(0, lines(1, 25)), par(0, lines(4, 10))], &free);
    let frames = layout(&content, regions(100, 40, &[], Some(40)));
    assert_eq!(ys(&frames[0]), vec![0, 25]);
    assert_eq!(ys(&frames[1]), vec![0, 10, 20]);
}

#[test]
fn a_paragraph_of_three_lines_moves_as_a_whole() {
    // Only two of the three lines fit into what is left of the region.
    let content = flow(vec![par(0, lines(1, 15)), par(0, lines(3, 10))]);
    let frames = layout(&content, regions(100, 40, &[40], None));
    assert_eq!(frames.len(), 2);
    assert_eq!(ys(&frames[0]), vec![0]);
    assert_eq!(frames[0].size(), size(40, 15));
    assert_eq!(frames[1].items.len(), 3);
    assert_eq!(ys(&frames[1]), vec![0, 10, 20]);
    assert_eq!(group(&frames[1], 2).1, &line(40, 10, 2));
}

#[test]
fn a_paragraph_of_three_lines_needs_both_costs_to_stay_whole() {
    let mut widow_only = styles();
    widow_only.costs = Costs { orphan: Ratio::zero(), widow: Ratio::one() };
    let content = with_styles(vec![par(0, lines(1, 15)), par(0, lines(3, 10))], &widow_only);
    let frames = layout(&content, regions(100, 40, &[40], None));
    assert_eq!(ys(&frames[0]), vec![0, 15, 25]);
    assert_eq!(ys(&frames[1]), vec![0]);
}

#[test]
fn lines_that_fit_nowhere_stay_in_the_region() {
    // The needed height fits neither here nor in the next region, so the
    // lines break where they must.
    let content = flow(vec![par(0, lines(3, 15))]);
    let frames = layout(&content, regions(100, 40, &[], Some(40)));
    assert_eq!(frames.len(), 2);
    assert_eq!(ys(&frames[0]), vec![0, 15]);
    assert_eq!(ys(&frames[1]), vec![0]);
}

#[test]
fn content_that_fits_nowhere_overflows_the_last_region() {
    let content = flow(vec![par(0, lines(1, 50))]);
    let frames = layout(&content, regions(100, 40, &[30], None));
    assert_eq!(frames.len(), 2);
    assert!(frames[0].is_empty());
    assert_eq!(frames[0].size(), Size::zero());
    // The frame is no higher than the region, though the line is.
    assert_eq!(frames[1].size(), size(40, 30));
    assert_eq!(group(&frames[1], 0), (at(0, 0), &line(40, 50, 0)));
}

#[test]
fn a_sticky_block_moves_with_the_paragraph_after_it() {
    let content = flow(vec![
        par(0, lines(1, 60)),
        block(flow(vec![par(0, vec![line(40, 30, 7)])]), true),
        par(0, vec![line(40, 50, 8)]),
    ]);
    let frames = layout(&content, regions(100, 100, &[100], None));
    assert_eq!(frames.len(), 2);
    assert_eq!(frames[0].items.len(), 1);
    assert_eq!(frames[0].size(), size(40, 60));
    assert_eq!(frames[1].items.len(), 2);
    assert_eq!(ys(&frames[1]), vec![0, 30]);
    let (_, sticky) = group(&frames[1], 0);
    assert_eq!(group(sticky, 0).1, &line(40, 30, 7));
    assert_eq!(group(&frames[1], 1).1, &line(40, 50, 8));
}

#[test]
fn a_block_that_does_not_stick_stays_behind() {
    let content = flow(vec![
        par(0, lines(1, 60)),
        block(flow(vec![par(0, vec![line(40, 30, 7)])]), false),
        par(0, vec![line(40, 50, 8)]),
    ]);
    let frames = layout(&content, regions(100, 100, &[100], None));
    assert_eq!(frames.len(), 2);
    assert_eq!(ys(&frames[0]), vec![0, 60]);
    assert_eq!(ys(&frames[1]), vec![0]);
}

#[test]
fn spacing_behind_a_sticky_block_moves_too() {
    let content = flow(vec![
        par(0, lines(1, 60)),
        v(3, false),
        block(flow(vec![par(0, vec![line(40, 30, 7)])]), true),
        v(4, false),
        par(0, vec![line(40, 50, 8)]),
    ]);
    let frames = layout(&content, regions(100, 100, &[100], None));
    assert_eq!(frames.len(), 2);
    // The spacing before the sticky block stays, the one behind it moves.
    assert_eq!(frames[0].size(), size(40, 63));
    assert_eq!(ys(&frames[1]), vec![0, 34]);
}

#[test]
fn a_block_is_laid_out_into_the_regions_that_are_left() {
    let inner = flow(vec![par(0, lines(4, 10))]);
    let mut free = styles();
    free.costs = Costs { orphan: Ratio::zero(), widow: Ratio::zero() };
    let inner = match &*inner.elem {
        Elem::Flow(flow) => with_styles(flow.children.iter().map(|c| c.child.clone()).collect(), &free),
        _ => unreachable!(),
    };
    let content = flow(vec![par(0, lines(1, 15)), block(inner, false)]);
    let frames = layout(&content, regions(100, 40, &[], Some(40)));
    assert_eq!(frames.len(), 2);
    // Two lines of the block fit below the paragraph.
    assert_eq!(ys(&frames[0]), vec![0, 15]);
    assert_eq!(group(&frames[0], 1).1.size(), size(40, 20));
    assert_eq!(group(&frames[1], 0).1.size(), size(40, 20));
}

#[test]
fn a_full_region_is_finished_before_a_block() {
    let content = flow(vec![par(0, lines(1, 40)), block(flow(vec![par(0, lines(1, 10))]), false)]);
    let frames = layout(&content, regions(100, 40, &[], Some(40)));
    assert_eq!(frames.len(), 2);
    assert_eq!(frames[0].items.len(), 1);
    assert_eq!(frames[1].items.len(), 1);
}

#[test]
fn a_column_break_finishes_the_region_where_another_follows() {
    let colbreak = Content::new(Elem::Colbreak(ColbreakElem { weak: false }));
    let content = flow(vec![par(0, lines(1, 10)), colbreak.clone(), par(0, lines(1, 10))]);
    let frames = layout(&content, regions(100, 40, &[40], None));
    assert_eq!(frames.len(), 2);
    assert_eq!(frames[0].items.len(), 1);
    assert_eq!(frames[1].items.len(), 1);
    let frames = layout(&content, regions(100, 40, &[], None));
    assert_eq!(frames.len(), 1);
    assert_eq!(ys(&frames[0]), vec![0, 10]);
}

#[test]
fn a_flow_that_expands_fills_the_backlog() {
    let content = flow(vec![block(flow(vec![par(0, lines(1, 10))]), false)]);
    let mut into = regions(100, 40, &[30, 20], None);
    into.expand = Axes { x: true, y: true };
    let frames = layout(&content, into);
    assert_eq!(frames.len(), 3);
    assert_eq!(frames[0].size(), size(100, 40));
    assert_eq!(frames[1].size(), size(100, 30));
    assert_eq!(frames[2].size(), size(100, 20));
    // The flow in the block expands too, so it has a frame for each region.
    assert_eq!(group(&frames[1], 0), (at(0, 0), &Frame::soft(size(100, 30))));
    assert_eq!(group(&frames[2], 0), (at(0, 0), &Frame::soft(size(100, 20))));
}

#[test]
fn an_empty_flow_gives_one_empty_frame() {
    let frames = layout(&flow(vec![]), regions(100, 40, &[30], Some(20)));
    assert_eq!(frames, vec![Frame::soft(Size::zero())]);
    let frame = layout_frame(
        &Engine::new(),
        &empty(),
        &styles(),
        Region::new(size(100, 40), Axes { x: true, y: false }),
    )
    .unwrap();
    assert_eq!(frame, Frame::soft(size(100, 0)));
}

#[test]
fn layout_frame_gives_the_frame_of_the_region() {
    let content = flow(vec![par(5, lines(2, 10))]);
    let region = Region::new(size(100, 100), Axes { x: false, y: false });
    let frame = layout_frame(&Engine::new(), &content, &styles(), region).unwrap();
    assert_eq!(vec![frame], layout(&content, Regions::single(region)));
}

#[test]
fn tags_go_to_the_next_frame() {
    let content = flow(vec![
        Content::new(Elem::Tag(TagElem { tag: tag(1) })),
        Content::new(Elem::Tag(TagElem { tag: tag(2) })),
        par(0, lines(2, 10)),
    ]);
    let frames = layout(&content, regions(100, 100, &[], None));
    let (_, first) = group(&frames[0], 0);
    assert_eq!(first.items.len(), 3);
    assert_eq!(first.items[0], (Point::zero(), FrameItem::Tag(tag(1))));
    assert_eq!(first.items[1], (Point::zero(), FrameItem::Tag(tag(2))));
    assert_eq!(first.items[2], (Point::zero(), FrameItem::Text(0)));
    assert_eq!(group(&frames[0], 1).1, &line(40, 10, 1));
}

#[test]
fn tags_at_the_end_go_to_the_last_frame() {
    let content = flow(vec![par(0, lines(1, 10)), Content::new(Elem::Tag(TagElem { tag: tag(1) }))]);
    let frames = layout(&content, regions(100, 100, &[], None));
    assert_eq!(frames[0].items.len(), 2);
    assert_eq!(frames[0].items[1], (at(0, 10), FrameItem::Tag(tag(1))));
}

#[test]
fn tags_skip_empty_frames() {
    let content = flow(vec![
        Content::new(Elem::Tag(TagElem { tag: tag(1) })),
        par(0, vec![Frame::soft(size(40, 10)), line(40, 10, 1)]),
    ]);
    let frames = layout(&content, regions(100, 100, &[], None));
    assert!(group(&frames[0], 0).1.is_empty());
    assert_eq!(group(&frames[0], 1).1.items[0], (Point::zero(), FrameItem::Tag(tag(1))));
}

#[test]
fn placed_content_takes_no_space() {
    let placed = place(
        flow(vec![par(0, vec![line(20, 30, 9)])]),
        false,
        Smart::Custom(Some(FixedAlignment::End)),
        0,
    );
    let content = flow(vec![par(0, lines(1, 10)), placed, par(0, lines(1, 10)), fr(1)]);
    let frames = layout(&content, regions(100, 100, &[], None));
    assert_eq!(frames[0].size(), size(40, 100));
    // The placed content sits at the bottom, the lines follow each other.
    assert_eq!(ys(&frames[0]), vec![0, 70, 10]);
    assert_eq!(group(&frames[0], 1).1.size(), size(20, 30));
}

#[test]
fn placed_content_without_alignment_is_centered_and_goes_with_the_flow() {
    let placed = Content::new(Elem::Place(PlaceElem {
        body: flow(vec![par(0, vec![line(20, 30, 9)])]),
        float: false,
        clearance: Abs::zero(),
        alignment: Smart::Auto,
        dx: Rel::absolute(abs(1)),
        dy: Rel { rel: Ratio { raw: RATIO_ONE / 10 }, abs: Abs::zero() },
    }));
    let content = flow(vec![par(0, lines(1, 10)), placed, fr(1)]);
    let frames = layout(&content, regions(100, 100, &[], None));
    // Centered in the width of the frame; moved by a tenth of its height.
    assert_eq!(frames[0].items[1].0, at(10 + 1, 10 + 10));
}

#[test]
fn a_float_in_a_fresh_region_goes_to_the_bottom() {
    let float = place(flow(vec![par(0, vec![line(20, 20, 9)])]), true, Smart::Auto, 5);
    let content = flow(vec![float, par(0, lines(1, 10))]);
    let frames = layout(&content, regions(100, 100, &[], None));
    // All of the region is left, so the middle of the float would lie in
    // its upper half: the float goes to the bottom.
    assert_eq!(frames[0].size(), size(40, 35));
    let (pos, docked) = group(&frames[0], 0);
    assert_eq!(pos, at(10, 10));
    // The clearance is added above the float.
    assert_eq!(docked.size(), size(20, 25));
    assert_eq!(docked.items[0].0, at(0, 5));
    assert_eq!(group(&frames[0], 1).0, at(0, 0));
}

#[test]
fn a_float_late_in_the_region_goes_to_the_top() {
    let float = place(flow(vec![par(0, vec![line(20, 20, 9)])]), true, Smart::Auto, 5);
    let content = flow(vec![par(0, lines(1, 70)), float, par(0, lines(1, 4))]);
    let frames = layout(&content, regions(100, 100, &[], None));
    assert_eq!(frames[0].size(), size(40, 99));
    // The lines follow below the float.
    assert_eq!(ys(&frames[0]), vec![25, 0, 95]);
    let (_, docked) = group(&frames[0], 1);
    // The clearance is added below the float.
    assert_eq!(docked.size(), size(20, 25));
    assert_eq!(docked.items[0].0, at(0, 0));
}

#[test]
fn the_float_rule_compares_the_middle_of_the_float_with_that_of_the_region() {
    let at_middle = |left: i64| {
        let float = place(flow(vec![par(0, vec![line(20, 24, 9)])]), true, Smart::Auto, 0);
        let content = flow(vec![par(0, lines(1, 100 - left)), float]);
        let frames = layout(&content, regions(100, 100, &[], None));
        ys(&frames[0])[1]
    };
    // With 62 left of 100, the middle of a float of 24 lies at 50, which is
    // not above the middle of the region: the float goes to the top.
    assert_eq!(at_middle(62), 0);
    // With 63 left it lies at 49: the float goes to the bottom, below the
    // line of 37.
    assert_eq!(at_middle(63), 37);
    assert_eq!(at_middle(100), 0);
}

#[test]
fn a_float_in_a_region_without_end_goes_to_the_top() {
    let float = place(flow(vec![par(0, vec![line(20, 24, 9)])]), true, Smart::Auto, 0);
    let content = flow(vec![par(0, lines(1, 10)), float]);
    let into = Regions::single(Region::new(
        Size::new(abs(100), Abs::inf()),
        Axes { x: false, y: false },
    ));
    let frames = layout(&content, into);
    assert_eq!(ys(&frames[0]), vec![24, 0]);
}

#[test]
fn floats_wait_for_a_region_with_room() {
    let float = place(
        flow(vec![par(0, vec![line(20, 25, 9)])]),
        true,
        Smart::Custom(Some(FixedAlignment::Start)),
        0,
    );
    let small = place(
        flow(vec![par(0, vec![line(20, 5, 10)])]),
        true,
        Smart::Custom(Some(FixedAlignment::Start)),
        0,
    );
    let content = flow(vec![par(0, lines(1, 10)), float, small, par(0, vec![line(40, 10, 1)])]);
    let frames = layout(&content, regions(100, 30, &[100], None));
    assert_eq!(frames.len(), 2);
    // The small float would fit, but waits behind the large one.
    assert_eq!(frames[0].items.len(), 2);
    assert_eq!(group(&frames[0], 0).1, &line(40, 10, 0));
    assert_eq!(group(&frames[0], 1).1, &line(40, 10, 1));
    assert_eq!(frames[1].items.len(), 2);
    assert_eq!(ys(&frames[1]), vec![0, 25]);
}

#[test]
fn a_flush_places_the_floats_that_wait() {
    let float = place(
        flow(vec![par(0, vec![line(20, 25, 9)])]),
        true,
        Smart::Custom(Some(FixedAlignment::Start)),
        0,
    );
    let flush = Content::new(Elem::Flush(FlushElem {}));
    let content = flow(vec![par(0, lines(1, 10)), float, flush, par(0, vec![line(40, 10, 1)])]);
    let frames = layout(&content, regions(100, 30, &[100], None));
    assert_eq!(frames.len(), 2);
    assert_eq!(frames[0].items.len(), 1);
    // The paragraph behind the flush follows the float.
    assert_eq!(frames[1].items.len(), 2);
    assert_eq!(group(&frames[1], 0).1.size(), size(20, 25));
    assert_eq!(group(&frames[1], 1), (at(0, 25), &line(40, 10, 1)));
    // Without the flush the paragraph stays in the first region.
    let float = place(
        flow(vec![par(0, vec![line(20, 25, 9)])]),
        true,
        Smart::Custom(Some(FixedAlignment::Start)),
        0,
    );
    let content = flow(vec![par(0, lines(1, 10)), float, par(0, vec![line(40, 10, 1)])]);
    let frames = layout(&content, regions(100, 30, &[100], None));
    assert_eq!(frames[0].items.len(), 2);
    assert_eq!(frames[1].items.len(), 1);
}

#[test]
fn items_out_of_the_flow_do_not_make_a_region() {
    let placed = place(
        flow(vec![par(0, vec![line(20, 5, 9)])]),
        false,
        Smart::Custom(Some(FixedAlignment::Start)),
        0,
    );
    let content = flow(vec![placed, par(0, lines(1, 50))]);
    let frames = layout(&content, regions(100, 30, &[100], None));
    assert_eq!(frames.len(), 2);
    // The region is skipped: its frame is empty and has its size.
    assert_eq!(frames[0], Frame::soft(size(100, 30)));
    assert_eq!(frames[1].items.len(), 2);
}

#[test]
fn flow_items_know_whether_they_are_out_of_the_flow() {
    let placed = |float: bool| FlowItem::Placed {
        frame: line(1, 1, 0),
        x_align: FixedAlignment::Start,
        y_align: Smart::Auto,
        delta: Axes { x: Rel::zero(), y: Rel::zero() },
        float,
        clearance: Abs::zero(),
    };
    let framed = |frame: Frame| FlowItem::Frame {
        frame,
        align: Axes { x: FixedAlignment::Start, y: FixedAlignment::Start },
        sticky: false,
        movable: false,
    };
    assert!(placed(false).is_out_of_flow());
    assert!(!placed(true).is_out_of_flow());
    assert!(framed(Frame::soft(Size::zero())).is_out_of_flow());
    let mut marks = Frame::soft(Size::zero());
    marks.push(Point::zero(), FrameItem::Tag(tag(1)));
    marks.push(Point::zero(), FrameItem::Link(1, size(3, 3)));
    assert!(framed(marks).is_out_of_flow());
    assert!(!framed(line(0, 0, 1)).is_out_of_flow());
    assert!(!framed(Frame::soft(size(0, 1))).is_out_of_flow());
    assert!(!FlowItem::Absolute(Abs::zero(), true).is_out_of_flow());
    assert!(!FlowItem::Fractional(Fr::zero()).is_out_of_flow());
    assert!(!FlowItem::Footnote(Frame::soft(Size::zero())).is_out_of_flow());
}

#[test]
fn inline_layout_indents_and_widens_lines() {
    let mut par = par_elem(0, lines(3, 10));
    par.first_line_indent = abs(4);
    par.hanging_indent = abs(2);
    let base = size(100, 50);
    let plain = layout_inline(&par, false, base, false);
    assert_eq!(plain[0], line(40, 10, 0));
    assert_eq!(plain[1].items[0].0, at(2, 0));
    assert_eq!(plain[2].items[0].0, at(2, 0));
    let consecutive = layout_inline(&par, true, base, true);
    assert_eq!(consecutive[0].size(), size(100, 10));
    assert_eq!(consecutive[0].items[0].0, at(4, 0));
    let unbounded = layout_inline(&par, false, Size::new(Abs::inf(), abs(50)), true);
    assert_eq!(unbounded[0].size(), size(40, 10));
}

#[test]
fn a_paragraph_after_a_paragraph_is_consecutive() {
    let mut second = par_elem(0, lines(1, 10));
    second.first_line_indent = abs(4);
    let mut first = par_elem(0, lines(1, 10));
    first.first_line_indent = abs(4);
    let content = flow(vec![
        Content::new(Elem::Par(first)),
        Content::new(Elem::Par(second)),
        block(flow(vec![]), false),
        {
            let mut third = par_elem(0, lines(1, 10));
            third.first_line_indent = abs(4);
            Content::new(Elem::Par(third))
        },
    ]);
    let frames = layout(&content, regions(100, 100, &[], None));
    assert_eq!(group(&frames[0], 0).1.items[0].0, at(0, 0));
    assert_eq!(group(&frames[0], 1).1.items[0].0, at(4, 0));
    // A block in between starts over.
    assert_eq!(group(&frames[0], 3).1.items[0].0, at(0, 0));
}

#[test]
fn footnotes_are_collected_once_for_each_location() {
    let note = |n: u64| footnote(n, par(0, lines(1, 5)));
    let mut inner = Frame::soft(Size::zero());
    inner.push(Point::zero(), FrameItem::Tag(note(2)));
    inner.push(Point::zero(), FrameItem::Tag(note(1)));
    let mut frame = Frame::soft(Size::zero());
    frame.push(Point::zero(), FrameItem::Tag(note(1)));
    frame.push(Point::zero(), FrameItem::Tag(tag(3)));
    frame.push(Point::zero(), FrameItem::Text(1));
    frame.push_frame(Point::zero(), inner);
    frame.push(Point::zero(), FrameItem::Tag(note(4)));
    let mut notes = vec![note(4).elem];
    collect_footnotes(&mut notes, &frame);
    assert_eq!(notes, vec![note(4).elem, note(1).elem, note(2).elem]);
}

fn noted_line(height: i64, id: u64, location: u64, entry: i64) -> Frame {
    let mut frame = line(40, height, id);
    frame.push(
        Point::zero(),
        FrameItem::Tag(footnote(location, par(0, vec![line(30, entry, 100 + id)]))),
    );
    frame
}

fn footnote_styles() -> Styles {
    let mut styles = styles();
    styles.footnote_separator = par(0, vec![line(10, 2, 99)]);
    styles.footnote_clearance = abs(3);
    styles.footnote_gap = abs(1);
    styles
}

fn layout_root(children: Vec<Content>, regions: Regions) -> Vec<Frame> {
    let styles = footnote_styles();
    let content = with_styles(children, &styles);
    layout_fragment(&Engine::new(), &content, &styles, root(regions)).unwrap()
}

#[test]
fn footnotes_go_to_the_foot_of_the_region() {
    let frames = layout_root(
        vec![par(0, vec![noted_line(10, 1, 1, 5)])],
        regions(100, 100, &[], None),
    );
    assert_eq!(frames.len(), 1);
    let frame = &frames[0];
    // A region with footnotes is as high as it can be.
    assert_eq!(frame.size(), size(40, 100));
    assert_eq!(frame.items.len(), 3);
    // The separator with its clearance takes 5, the gap 1, the entry 5.
    let (pos, separator) = group(frame, 1);
    assert_eq!(pos, at(0, 89));
    assert_eq!(separator.size(), size(10, 5));
    assert_eq!(separator.items[0].0, at(0, 3));
    let (pos, entry) = group(frame, 2);
    assert_eq!(pos, at(0, 95));
    assert_eq!(entry.size(), size(30, 5));
}

#[test]
fn only_the_root_flow_hosts_footnotes() {
    let styles = footnote_styles();
    let content = with_styles(vec![par(0, vec![noted_line(10, 1, 1, 5)])], &styles);
    let frames =
        layout_fragment(&Engine::new(), &content, &styles, regions(100, 100, &[], None)).unwrap();
    assert_eq!(frames[0].items.len(), 1);
    assert_eq!(frames[0].size(), size(40, 10));
}

#[test]
fn a_line_goes_with_a_footnote_that_does_not_fit() {
    let frames = layout_root(
        vec![par(0, lines(1, 80)), par(0, vec![noted_line(10, 1, 1, 12)])],
        regions(100, 100, &[100], None),
    );
    assert_eq!(frames.len(), 2);
    // Nothing of the footnote stays behind: no separator, no entry.
    assert_eq!(frames[0].items.len(), 1);
    assert_eq!(frames[0].size(), size(40, 80));
    assert_eq!(frames[1].items.len(), 3);
    assert_eq!(group(&frames[1], 0), (at(0, 0), &noted_line(10, 1, 1, 12)));
    assert_eq!(group(&frames[1], 1).0, at(0, 82));
    assert_eq!(group(&frames[1], 2).0, at(0, 88));
}

#[test]
fn in_the_last_region_footnotes_are_placed_whether_they_fit_or_not() {
    let frames = layout_root(
        vec![par(0, lines(1, 80)), par(0, vec![noted_line(10, 1, 1, 12)])],
        regions(100, 100, &[], None),
    );
    // There is no region to go on to, so everything stays.
    assert_eq!(frames.len(), 1);
    assert_eq!(frames[0].items.len(), 4);
    // The entry is cut to the 4 that were left for it.
    assert_eq!(ys(&frames[0]), vec![0, 80, 90, 96]);
    assert_eq!(group(&frames[0], 3).1.size(), size(30, 4));
}

#[test]
fn footnotes_of_a_block_move_without_the_block() {
    let styles = footnote_styles();
    let noted = with_styles(vec![par(0, vec![noted_line(10, 1, 1, 12)])], &styles);
    let frames = layout_root(
        vec![par(0, lines(1, 80)), block(noted, false)],
        regions(100, 100, &[100], None),
    );
    assert_eq!(frames.len(), 2);
    assert_eq!(frames[0].items.len(), 2);
    // Separator and entry.
    assert_eq!(frames[1].items.len(), 2);
    assert_eq!(frames[1].size(), size(30, 100));
}

#[test]
fn a_footnote_is_placed_once() {
    let mut twice = noted_line(10, 1, 1, 5);
    twice.push(Point::zero(), FrameItem::Tag(footnote(1, par(0, vec![line(30, 5, 0)]))));
    twice.push(Point::zero(), FrameItem::Tag(footnote(2, par(0, vec![line(30, 5, 0)]))));
    let frames = layout_root(
        vec![par(0, vec![twice, line(40, 10, 2)])],
        regions(100, 100, &[], None),
    );
    // Two lines, the separator, and an entry for each of two locations.
    // The footnotes are placed when their line is.
    assert_eq!(frames[0].items.len(), 5);
    assert_eq!(ys(&frames[0]), vec![0, 83, 89, 95, 10]);
}

#[test]
fn references_to_footnotes_have_no_entry() {
    let mut frame = line(40, 10, 1);
    frame.push(
        Point::zero(),
        FrameItem::Tag(Tag {
            elem: Content::new(Elem::Footnote(FootnoteElem { body: FootnoteBody::Reference(7) }))
                .located(Location(1)),
        }),
    );
    let frames = layout_root(vec![par(0, vec![frame])], regions(100, 100, &[], None));
    assert_eq!(frames[0].items.len(), 1);
    assert_eq!(frames[0].size(), size(40, 10));
}

#[test]
fn footnotes_in_footnotes_come_right_after_them() {
    let inner = footnote(2, par(0, vec![line(30, 6, 202)]));
    let mut entry_line = line(30, 5, 201);
    entry_line.push(Point::zero(), FrameItem::Tag(inner));
    let outer = footnote(1, par(0, vec![entry_line]));
    let mut first = line(40, 10, 1);
    first.push(Point::zero(), FrameItem::Tag(outer));
    let mut second = line(40, 10, 2);
    second.push(Point::zero(), FrameItem::Tag(footnote(3, par(0, vec![line(30, 7, 203)]))));
    // Both notes are found in one block, so that they are handled together.
    let styles = footnote_styles();
    let body = with_styles(vec![par(0, vec![first, second])], &styles);
    let frames = layout_root(vec![block(body, false)], regions(100, 100, &[], None));
    let heights: Vec<i64> = frames[0]
        .items
        .iter()
        .skip(2)
        .map(|item| match item {
            (_, FrameItem::Group(frame)) => frame.height().raw,
            _ => panic!("expected a frame"),
        })
        .collect();
    // The note in the first entry comes before the second note.
    assert_eq!(heights, vec![5, 6, 7]);
}

#[test]
fn a_flow_child_that_is_not_block_level_is_an_error() {
    let content = flow(vec![par(0, lines(1, 10)), Content::new(Elem::Parbreak(ParbreakElem {}))]);
    let result = layout_fragment(&Engine::new(), &content, &styles(), regions(100, 100, &[], None));
    assert_eq!(result, Err(LayoutError::UnexpectedFlowChild(Span::detached())));
    let nested = flow(vec![block(content, false)]);
    let result = layout_fragment(&Engine::new(), &nested, &styles(), regions(100, 100, &[], None));
    assert_eq!(result, Err(LayoutError::UnexpectedFlowChild(Span::detached())));
}

#[test]
fn expanding_into_infinity_is_an_error() {
    let content = flow(vec![par(0, lines(1, 10))]);
    let mut into = regions(100, 100, &[], None);
    into.size.x = Abs::inf();
    into.expand.x = true;
    let result = layout_fragment(&Engine::new(), &content, &styles(), into);
    assert_eq!(result, Err(LayoutError::InfiniteWidth(Span::detached())));
    let mut into = regions(100, 100, &[], None);
    into.size.y = Abs::inf();
    into.expand.y = true;
    let result = layout_fragment(&Engine::new(), &content, &styles(), into);
    assert_eq!(result, Err(LayoutError::InfiniteHeight(Span::detached())));
    let mut into = regions(100, 100, &[], None);
    into.size.y = Abs::inf();
    let result = layout_fragment(&Engine::new(), &content, &styles(), into);
    assert!(result.is_ok());
}

#[test]
fn layouts_nest_only_so_deep() {
    let content = flow(vec![par(0, lines(1, 10))]);
    let deep = Engine { route: Route { depth: MAX_LAYOUT_DEPTH } };
    let result = layout_fragment(&deep, &content, &styles(), regions(100, 100, &[], None));
    assert_eq!(result, Err(LayoutError::MaxLayoutDepth(Span::detached())));
    let almost = Engine { route: Route { depth: MAX_LAYOUT_DEPTH - 1 } };
    let result = layout_fragment(&almost, &content, &styles(), regions(100, 100, &[], None));
    assert!(result.is_ok());
    let mut nested = par(0, lines(1, 10));
    for _ in 0..MAX_LAYOUT_DEPTH - 1 {
        nested = block(nested, false);
    }
    let result = layout_fragment(&Engine::new(), &nested, &styles(), regions(100, 100, &[], None));
    assert!(result.is_ok());
    let result = layout_fragment(
        &Engine::new(),
        &block(nested, false),
        &styles(),
        regions(100, 100, &[], None),
    );
    assert_eq!(result, Err(LayoutError::MaxLayoutDepth(Span::detached())));
}

#[test]
fn a_footnote_without_location_is_an_error() {
    let mut frame = line(40, 10, 1);
    frame.push(
        Point::zero(),
        FrameItem::Tag(Tag {
            elem: Content::new(Elem::Footnote(FootnoteElem {
                body: FootnoteBody::Content(empty()),
            })),
        }),
    );
    let styles = footnote_styles();
    let content = with_styles(vec![par(0, vec![frame])], &styles);
    let result =
        layout_fragment(&Engine::new(), &content, &styles, root(regions(100, 100, &[], None)));
    assert_eq!(result, Err(LayoutError::UnlocatedFootnote(Span::detached())));
}

#[test]
fn a_float_in_the_middle_is_an_error() {
    for y in [None, Some(FixedAlignment::Center)] {
        let float = place(empty(), true, Smart::Custom(y), 0);
        let result = layout_fragment(
            &Engine::new(),
            &flow(vec![float]),
            &styles(),
            regions(100, 100, &[], None),
        );
        assert_eq!(result, Err(LayoutError::FloatPlacement(Span::detached())));
        let placed = place(empty(), false, Smart::Custom(y), 0);
        let result = layout_fragment(
            &Engine::new(),
            &flow(vec![placed]),
            &styles(),
            regions(100, 100, &[], None),
        );
        assert!(result.is_ok());
    }
}

#[test]
fn the_layouter_can_be_driven_by_hand() {
    let styles = styles();
    let engine = Engine::new();
    let children = FlowElem { children: vec![] };
    let mut layouter =
        FlowLayouter::new(&engine, &children, Span::detached(), &styles, regions(100, 30, &[40], Some(50)));
    assert!(!layouter.root);
    assert_eq!(layouter.initial, size(100, 30));
    layouter.handle_item(FlowItem::Absolute(abs(5), true)).unwrap();
    assert!(layouter.items.is_empty());
    layouter
        .handle_item(FlowItem::Frame {
            frame: line(10, 10, 1),
            align: styles.align,
            sticky: true,
            movable: false,
        })
        .unwrap();
    layouter.handle_item(FlowItem::Absolute(abs(5), true)).unwrap();
    assert_eq!(layouter.items.len(), 2);
    assert_eq!(layouter.regions.size.y, abs(15));
    let in_last = layouter.finish_region_with_migration().unwrap();
    assert!(!in_last);
    assert_eq!(layouter.finished, vec![Frame::soft(Size::zero())]);
    assert_eq!(layouter.items.len(), 2);
    assert_eq!(layouter.initial, size(100, 40));
    assert_eq!(layouter.regions.size.y, abs(25));
    layouter.finish_region(false).unwrap();
    assert_eq!(layouter.finished.len(), 2);
    assert_eq!(layouter.finished[1].size(), size(10, 10));
    assert_eq!(layouter.regions.size.y, abs(50));
    assert!(layouter.regions.in_last());
    let frames = layouter.finish().unwrap();
    assert_eq!(frames.len(), 3);
}

#[test]
fn layout_is_a_function_of_its_input() {
    let content = flow(vec![
        par(3, lines(7, 10)),
        v(4, true),
        place(flow(vec![par(0, lines(1, 12))]), true, Smart::Auto, 2),
        block(flow(vec![par(1, lines(9, 8))]), true),
        par(2, lines(5, 9)),
    ]);
    let first = layout(&content, regions(100, 45, &[30, 60], Some(50)));
    let second = layout(&content, regions(100, 45, &[30, 60], Some(50)));
    assert_eq!(first, second);
    assert!(first.len() > 3);
    let deep = Engine { route: Route { depth: 3 } };
    let third =
        layout_fragment(&deep, &content, &styles(), regions(100, 45, &[30, 60], Some(50))).unwrap();
    assert_eq!(first, third);
}

#[test]
fn frames_are_never_larger_than_their_regions() {
    let content = flow(vec![
        par(3, lines(7, 10)),
        v(400, false),
        place(flow(vec![par(0, lines(1, 12))]), true, Smart::Auto, 2),
        block(flow(vec![par(1, lines(9, 8))]), true),
        par(2, lines(5, 9)),
    ]);
    let heights = [45, 30, 60, 50, 50, 50, 50, 50, 50, 50, 50, 50];
    let frames = layout(&content, regions(100, 45, &[30, 60], Some(50)));
    assert!(frames.len() <= heights.len());
    for (frame, height) in frames.iter().zip(heights) {
        assert!(frame.height().raw <= height);
        assert!(frame.width().raw <= 100);
    }
}

#[test]
fn every_frame_takes_a_region() {
    let styles = styles();
    let engine = Engine::new();
    let children = FlowElem { children: vec![] };
    let heights = [40, 30, 50, 20, 60, 35, 45];
    let mut layouter =
        FlowLayouter::new(&engine, &children, Span::detached(), &styles, regions(100, 25, &heights, Some(30)));
    let steps: Vec<Box<dyn Fn(&mut FlowLayouter) -> Result<(), LayoutError>>> = vec![
        Box::new(|l| l.handle_par(&par_elem(2, lines(6, 9)), &self::styles())),
        Box::new(|l| l.handle_colbreak()),
        Box::new(|l| {
            l.handle_v(&VElem { amount: Spacing::Rel(Rel::absolute(abs(12))), weakness: 0 })
        }),
        Box::new(|l| {
            l.handle_item(FlowItem::Frame {
                frame: line(10, 70, 1),
                align: Axes { x: FixedAlignment::Start, y: FixedAlignment::Start },
                sticky: false,
                movable: false,
            })
        }),
        Box::new(|l| l.finish_region(true)),
        Box::new(|l| l.finish_region(false)),
    ];
    for step in &steps {
        let before = (layouter.finished.len(), layouter.regions.backlog.len());
        step(&mut layouter).unwrap();
        let frames = layouter.finished.len() - before.0;
        assert_eq!(layouter.regions.backlog.len(), before.1.saturating_sub(frames));
        assert_eq!(layouter.regions.last, Some(abs(30)));
    }
    assert!(layouter.finished.len() >= 5);
    let before = layouter.finished.len();
    let frames = layouter.finish().unwrap();
    assert!(frames.len() > before);
}

#[test]
fn a_frame_that_is_laid_out_again_comes_back() {
    let content = flow(vec![
        par(3, lines(7, 10)),
        v(4, true),
        block(flow(vec![par(1, lines(9, 8))]), true),
    ]);
    let frames = layout(&content, regions(100, 45, &[30, 60], Some(50)));
    assert!(frames.len() > 2);
    for frame in frames {
        let again = layout_fragment(
            &Engine::new(),
            &par(0, vec![frame.clone()]),
            &styles(),
            Regions::single(Region::new(frame.size(), Axes { x: false, y: false })),
        )
        .unwrap();
        assert_eq!(again.len(), 1);
        assert_eq!(again[0].size(), frame.size());
        assert_eq!(again[0].items.len(), 1);
        assert_eq!(group(&again[0], 0), (Point::zero(), &frame));
    }
}

#[test]
fn weak_spacing_beside_a_single_block_changes_how_the_block_expands() {
    let into = || Regions::single(Region::new(size(100, 60), Axes { x: false, y: true }));
    let alone = flow(vec![block(flow(vec![par(0, lines(1, 10))]), false)]);
    let spaced = flow(vec![v(5, true), block(flow(vec![par(0, lines(1, 10))]), false)]);
    let alone = layout(&alone, into());
    let spaced = layout(&spaced, into());
    // Alone in its flow the block gets the full height.
    assert_eq!(group(&alone[0], 0).1.size(), size(40, 60));
    assert_eq!(group(&spaced[0], 0).1.size(), size(40, 10));
    // In a flow of more children the spacing makes no difference.
    let plain = flow(vec![par(0, lines(1, 10)), par(0, lines(1, 10))]);
    let spaced = flow(vec![v(5, true), par(0, lines(1, 10)), par(0, lines(1, 10))]);
    assert_eq!(layout(&plain, into()), layout(&spaced, into()));
}

#[test]
fn errors_have_messages() {
    assert_eq!(LayoutError::UnexpectedFlowChild(Span::detached()).message(), "unexpected flow child");
    assert_eq!(LayoutError::ExpectedPage(Span::detached()).message(), "expected page element");
    assert_eq!(LayoutError::InfiniteWidth(Span::detached()).message(), "cannot expand into infinite width");
    assert_eq!(LayoutError::InfiniteHeight(Span::detached()).message(), "cannot expand into infinite height");
    assert_eq!(LayoutError::MaxLayoutDepth(Span::detached()).message(), "maximum layout depth exceeded");
    assert_eq!(LayoutError::UnlocatedFootnote(Span::detached()).message(), "footnote has no location");
    assert_eq!(
        LayoutError::FloatPlacement(Span::detached()).message(),
        "floating placement must be `auto`, `top`, or `bottom`"
    );
    assert_eq!(
        LayoutError::MaxLayoutDepth(Span::detached()).hint(),
        Some("try to reduce the amount of nesting in your layout")
    );
    assert_eq!(LayoutError::ExpectedPage(Span::detached()).hint(), None);
}

#[test]
fn frames_overdraw_only_where_no_region_follows() {
    let styles = styles();
    let engine = Engine::new();
    let children = FlowElem { children: vec![] };
    let mut layouter =
        FlowLayouter::new(&engine, &children, Span::detached(), &styles, regions(100, 25, &[40, 30], None));
    for height in [20, 20, 35, 10, 25, 80, 90] {
        layouter
            .handle_item(FlowItem::Frame {
                frame: line(10, height, 1),
                align: styles.align,
                sticky: false,
                movable: false,
            })
            .unwrap();
        assert!(layouter.regions.size.y.raw >= 0 || layouter.regions.backlog.is_empty());
    }
    assert!(layouter.regions.size.y.raw < 0);
    // Spacing is taken whether it fits or not.
    let mut layouter =
        FlowLayouter::new(&engine, &children, Span::detached(), &styles, regions(100, 25, &[40, 30], None));
    layouter.handle_item(FlowItem::Absolute(abs(100), false)).unwrap();
    assert_eq!(layouter.regions.size.y, abs(-75));
    assert_eq!(layouter.regions.backlog.len(), 2);
}

#[test]
fn a_single_region_has_a_single_frame() {
    let float = |y| place(flow(vec![par(0, vec![line(20, 70, 9)])]), true, y, 5);
    let contents = vec![
        flow(vec![]),
        flow(vec![par(3, lines(30, 10))]),
        flow(vec![
            par(3, lines(7, 10)),
            Content::new(Elem::Colbreak(ColbreakElem { weak: false })),
            float(Smart::Auto),
            float(Smart::Custom(Some(FixedAlignment::End))),
            Content::new(Elem::Flush(FlushElem {})),
            block(flow(vec![par(1, lines(9, 8)), float(Smart::Auto)]), true),
            v(500, false),
            par(2, lines(5, 9)),
        ]),
    ];
    for content in &contents {
        for expand in [false, true] {
            let region = Region::new(size(100, 45), Axes { x: expand, y: expand });
            let frames = layout(content, Regions::single(region));
            assert_eq!(frames.len(), 1);
            let frame = layout_frame(&Engine::new(), content, &styles(), region).unwrap();
            assert_eq!(frames, vec![frame]);
        }
    }
    let noted = vec![
        par(0, lines(1, 40)),
        par(0, vec![noted_line(10, 1, 1, 30), noted_line(10, 2, 2, 30)]),
        block(flow(vec![par(0, vec![noted_line(10, 3, 3, 30)])]), false),
    ];
    let frames = layout_root(noted, Regions::single(Region::new(
        size(100, 45),
        Axes { x: false, y: false },
    )));
    assert_eq!(frames.len(), 1);
}

#[test]
fn only_the_first_footnote_gives_up() {
    // The entry of the second note does not fit into what is left.
    let mut noted = noted_line(10, 1, 1, 5);
    noted.push(Point::zero(), FrameItem::Tag(footnote(2, par(0, vec![line(30, 30, 102)]))));
    let frames = layout_root(
        vec![par(0, lines(1, 60)), par(0, vec![noted])],
        regions(100, 100, &[100], None),
    );
    assert_eq!(frames.len(), 2);
    // The line stays with the first entry, and the second entry breaks: its
    // empty first frame stays too.
    assert_eq!(frames[0].items.len(), 5);
    assert_eq!(group(&frames[0], 1).1.items[0].1, FrameItem::Text(1));
    assert_eq!(group(&frames[0], 3).1.size(), size(30, 5));
    assert!(group(&frames[0], 4).1.is_empty());
    // The separator and the rest of the second entry.
    assert_eq!(frames[1].items.len(), 2);
    assert_eq!(group(&frames[1], 1).1.size(), size(30, 30));
}

#[test]
fn footnotes_are_handled_alike_for_movable_frames_and_others() {
    let styles = footnote_styles();
    let engine = Engine::new();
    let children = FlowElem { children: vec![] };
    let note = |n: u64, height: i64| footnote(n, par(0, vec![line(30, height, 100 + n)])).elem;
    let run = |movable: bool, force: bool| {
        let mut layouter =
            FlowLayouter::new(&engine, &children, Span::detached(), &styles, root(regions(100, 20, &[100], None)));
        let mut notes = vec![note(1, 5), note(2, 30)];
        let fit = layouter.handle_footnotes(&mut notes, movable, force).unwrap();
        (fit, layouter.finished.len(), layouter.items.len(), layouter.regions.size.y)
    };
    assert_eq!(run(true, false), run(false, false));
    assert_eq!(run(true, true), run(false, true));
    // The first entry fits, so the second is kept though it breaks.
    assert_eq!(run(true, false).0, true);
    assert_eq!(run(true, false).1, 1);
    // Where the first entry does not fit, nothing is placed.
    let mut layouter =
        FlowLayouter::new(&engine, &children, Span::detached(), &styles, root(regions(100, 20, &[100], None)));
    let mut notes = vec![note(1, 30), note(2, 5)];
    assert_eq!(layouter.handle_footnotes(&mut notes, true, false), Ok(false));
    assert!(layouter.items.is_empty());
    assert!(layouter.finished.is_empty());
    assert_eq!(layouter.regions.size.y, abs(20));
    assert_eq!(notes.len(), 2);
    // Unless it is forced.
    assert_eq!(layouter.handle_footnotes(&mut notes, true, true), Ok(true));
    assert_eq!(layouter.finished.len(), 1);
}

#[test]
fn weak_spacing_before_the_first_frame_of_a_region_can_be_left_out() {
    let colbreak = || Content::new(Elem::Colbreak(ColbreakElem { weak: false }));
    let mark = || Content::new(Elem::Tag(TagElem { tag: tag(1) }));
    let with = flow(vec![
        mark(),
        v(7, true),
        par(0, lines(2, 10)),
        colbreak(),
        v(9, true),
        mark(),
        v(3, true),
        par(0, lines(1, 10)),
    ]);
    let without = flow(vec![
        mark(),
        par(0, lines(2, 10)),
        colbreak(),
        mark(),
        par(0, lines(1, 10)),
    ]);
    let into = || regions(100, 40, &[40], None);
    assert_eq!(layout(&with, into()), layout(&without, into()));
    assert_eq!(layout(&with, into()).len(), 2);
    // Between two frames it takes its length.
    let between = flow(vec![par(0, lines(1, 10)), v(3, true), par(0, lines(1, 10))]);
    let plain = flow(vec![par(0, lines(1, 10)), par(0, lines(1, 10))]);
    assert_ne!(layout(&between, into()), layout(&plain, into()));
}

#[test]
fn a_region_that_cannot_be_finished_is_left_as_it_is() {
    let styles = styles();
    let engine = Engine::new();
    let children = FlowElem { children: vec![] };
    let mut into = regions(100, 30, &[40], None);
    into.size.x = Abs::inf();
    into.size.y = Abs::inf();
    into.expand = Axes { x: true, y: true };
    let mut layouter = FlowLayouter::new(&engine, &children, Span::detached(), &styles, into);
    layouter.handle_item(FlowItem::Absolute(abs(5), false)).unwrap();
    layouter.handle_item(FlowItem::Fractional(Fr { raw: 1 })).unwrap();
    // The width comes first.
    assert_eq!(layouter.finish_region(true), Err(LayoutError::InfiniteWidth(Span::detached())));
    assert_eq!(layouter.finish_region(false), Err(LayoutError::InfiniteWidth(Span::detached())));
    assert!(layouter.finished.is_empty());
    assert_eq!(layouter.items.len(), 2);
    assert_eq!(layouter.regions.backlog.len(), 1);
    layouter.expand.x = false;
    assert_eq!(layouter.finish_region(true), Err(LayoutError::InfiniteHeight(Span::detached())));
    assert!(layouter.finished.is_empty());
    assert_eq!(layouter.items.len(), 2);
    layouter.expand.y = false;
    assert_eq!(layouter.finish_region(true), Ok(()));
    assert_eq!(layouter.finished.len(), 1);
    assert!(layouter.items.is_empty());
}

#[test]
fn an_error_says_where_its_content_comes_from() {
    // A child that is not block-level: the child.
    let stray = Content::new(Elem::Parbreak(ParbreakElem {})).spanned(Span(7));
    let content = flow(vec![par(0, lines(1, 10)).spanned(Span(6)), stray]).spanned(Span(5));
    let result = layout_fragment(&Engine::new(), &content, &styles(), regions(100, 100, &[], None));
    assert_eq!(result, Err(LayoutError::UnexpectedFlowChild(Span(7))));
    assert_eq!(result.unwrap_err().span(), Span(7));

    // A flow that must fill an axis without end: the flow.
    let content = flow(vec![par(0, lines(1, 10)).spanned(Span(6))]).spanned(Span(5));
    let mut into = regions(100, 100, &[], None);
    into.size.x = Abs::inf();
    into.expand.x = true;
    let result = layout_fragment(&Engine::new(), &content, &styles(), into);
    assert_eq!(result, Err(LayoutError::InfiniteWidth(Span(5))));
    let mut into = regions(100, 100, &[], None);
    into.size.y = Abs::inf();
    into.expand.y = true;
    let result = layout_fragment(&Engine::new(), &content, &styles(), into);
    assert_eq!(result, Err(LayoutError::InfiniteHeight(Span(5))));

    // Layouts nested too deeply: the content that was to be laid out.
    let deep = Engine { route: Route { depth: MAX_LAYOUT_DEPTH } };
    let result = layout_fragment(&deep, &content, &styles(), regions(100, 100, &[], None));
    assert_eq!(result, Err(LayoutError::MaxLayoutDepth(Span(5))));
    let region = Region::new(size(100, 100), Axes { x: false, y: false });
    let result = layout_frame(&deep, &content, &styles(), region);
    assert_eq!(result, Err(LayoutError::MaxLayoutDepth(Span(5))));

    // A float in the middle: the placed element.
    let float = place(empty(), true, Smart::Custom(None), 0).spanned(Span(8));
    let content = flow(vec![par(0, lines(1, 10)), float]).spanned(Span(5));
    let result = layout_fragment(&Engine::new(), &content, &styles(), regions(100, 100, &[], None));
    assert_eq!(result, Err(LayoutError::FloatPlacement(Span(8))));

    // A footnote without a location: the footnote.
    let mut frame = line(40, 10, 1);
    let note = Content::new(Elem::Footnote(FootnoteElem { body: FootnoteBody::Content(empty()) }));
    frame.push(Point::zero(), FrameItem::Tag(Tag { elem: note.spanned(Span(9)) }));
    let styles = footnote_styles();
    let content = with_styles(vec![par(0, vec![frame])], &styles).spanned(Span(5));
    let result =
        layout_fragment(&Engine::new(), &content, &styles, root(regions(100, 100, &[], None)));
    assert_eq!(result, Err(LayoutError::UnlocatedFootnote(Span(9))));
}

#[test]
fn content_keeps_its_place_in_the_source() {
    assert_eq!(Span::detached(), Span(0));
    assert_eq!(empty().span, Span::detached());
    let content = empty().spanned(Span(3));
    assert_eq!(content.span, Span(3));
    assert_eq!(content.clone().span, Span(3));
    let located = content.located(Location(4));
    assert_eq!(located.span, Span(3));
    assert_eq!(located.location, Some(Location(4)));
    assert_eq!(LayoutError::ExpectedPage(Span(2)).span(), Span(2));
    assert_eq!(LayoutError::ExpectedPage(Span(2)).message(), "expected page element");
}

fn sticky_item(height: i64, id: u64) -> FlowItem {
    FlowItem::Frame {
        frame: line(40, height, id),
        align: Axes { x: FixedAlignment::Start, y: FixedAlignment::Start },
        sticky: true,
        movable: false,
    }
}

#[test]
fn migration_carries_the_sticky_frames_in_their_order() {
    let styles = styles();
    let engine = Engine::new();
    let children = FlowElem { children: vec![] };
    let mut layouter = FlowLayouter::new(
        &engine,
        &children,
        Span::detached(),
        &styles,
        regions(100, 100, &[80, 70], None),
    );
    let stays = FlowItem::Frame {
        frame: line(40, 20, 1),
        align: Axes { x: FixedAlignment::Start, y: FixedAlignment::Start },
        sticky: false,
        movable: false,
    };
    layouter.handle_item(stays).unwrap();
    layouter.handle_item(FlowItem::Absolute(abs(3), false)).unwrap();
    layouter.handle_item(sticky_item(10, 2)).unwrap();
    layouter.handle_item(FlowItem::Absolute(abs(4), true)).unwrap();
    layouter.handle_item(sticky_item(11, 3)).unwrap();
    layouter.handle_item(FlowItem::Absolute(abs(5), false)).unwrap();
    assert_eq!(layouter.finish_region_with_migration(), Ok(false));
    // One frame is finished: that of what stays behind.
    assert_eq!(layouter.finished.len(), 1);
    assert_eq!(layouter.finished[0].size(), size(40, 23));
    assert_eq!(layouter.finished[0].items.len(), 1);
    assert_eq!(group(&layouter.finished[0], 0).1, &line(40, 20, 1));
    // The region that follows holds what was carried, as it was.
    assert_eq!(
        layouter.items,
        vec![
            sticky_item(10, 2),
            FlowItem::Absolute(abs(4), true),
            sticky_item(11, 3),
            FlowItem::Absolute(abs(5), false),
        ]
    );
    assert_eq!(layouter.regions.size, size(100, 80 - 30));
    assert_eq!(layouter.regions.backlog, vec![abs(70)]);
}

#[test]
fn a_frame_in_the_middle_has_as_much_on_its_left_as_on_its_right() {
    let mut centered = styles();
    centered.align = Axes { x: FixedAlignment::Center, y: FixedAlignment::Start };
    let engine = Engine::new();
    let children = FlowElem { children: vec![] };
    for (width, left) in [(40, 30), (41, 29), (100, 0), (99, 0)] {
        let into = Regions::single(Region::new(size(100, 60), Axes { x: true, y: false }));
        let mut layouter =
            FlowLayouter::new(&engine, &children, Span::detached(), &centered, into);
        let item = FlowItem::Frame {
            frame: line(width, 10, 1),
            align: centered.align,
            sticky: false,
            movable: false,
        };
        layouter.handle_item(item).unwrap();
        layouter.finish_region(true).unwrap();
        let frame = &layouter.finished[0];
        assert_eq!(frame.size(), size(100, 10));
        let (pos, inner) = group(frame, 0);
        assert_eq!(inner.size(), size(width, 10));
        assert_eq!(pos, at(left, 0));
        let right = 100 - left - width;
        assert!(left <= right && right <= left + 1);
    }
    // A line of a paragraph in such a flow is as wide as the region.
    let content = with_styles(vec![par(0, vec![line(40, 10, 1)])], &centered);
    let into = Regions::single(Region::new(size(100, 60), Axes { x: true, y: false }));
    let frames = layout_fragment(&Engine::new(), &content, &centered, into).unwrap();
    let (pos, inner) = group(&frames[0], 0);
    assert_eq!(pos, at(0, 0));
    assert_eq!(inner.size(), size(100, 10));
}

#[test]
fn no_frame_is_larger_than_its_region() {
    // Lines of all heights, strong spacing that is taken whether it fits or
    // not, and a last line that is higher than any region.
    let content = flow(vec![
        par(0, lines(3, 10)),
        v(25, false),
        par(0, vec![line(120, 10, 7)]),
        v(18, false),
        par(0, vec![line(40, 90, 8)]),
    ]);
    let heights = [35, 20, 30];
    let into = regions(100, heights[0], &heights[1..], None);
    let frames = layout(&content, into);
    assert!(frames.len() >= 2);
    for (i, frame) in frames.iter().enumerate() {
        if i < heights.len() {
            assert!(abs(100).fits(frame.size().x), "frame {i}");
            assert!(abs(heights[i]).fits(frame.size().y), "frame {i}");
        }
    }
    // The line that is too high overflows the frame of the last region.
    let last = frames.last().unwrap();
    let (pos, inner) = group(last, last.items.len() - 1);
    assert_eq!(inner.size(), size(40, 90));
    assert!(!last.size().y.fits(pos.y.plus(inner.size().y)));
}

#[test]
fn what_is_finished_stays_as_it_is() {
    let styles = styles();
    let engine = Engine::new();
    let children = FlowElem { children: vec![] };
    let mut layouter = FlowLayouter::new(
        &engine,
        &children,
        Span::detached(),
        &styles,
        regions(100, 30, &[30, 30], None),
    );
    let frame = |id: u64| FlowItem::Frame {
        frame: line(40, 20, id),
        align: Axes { x: FixedAlignment::Start, y: FixedAlignment::Start },
        sticky: false,
        movable: false,
    };
    layouter.handle_item(frame(1)).unwrap();
    layouter.handle_item(frame(2)).unwrap();
    assert_eq!(layouter.finished.len(), 1);
    let first = layouter.finished[0].clone();
    layouter.handle_item(frame(3)).unwrap();
    layouter.finish_region(true).unwrap();
    assert_eq!(layouter.finished.len(), 3);
    assert_eq!(layouter.finished[0], first);
    assert_eq!(layouter.regions.backlog.len(), 0);
}
