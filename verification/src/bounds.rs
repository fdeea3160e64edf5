//! The frames of a layout and the regions that they are for.

use crate::content::{Content, Elem, Styles};
use crate::engine::{Engine, MAX_LAYOUT_DEPTH};
use crate::model::{layout_fragment, layout_fragment_def, realized, FlowState};
use crate::pace::law_flow_keeps_pace;
use crate::regions::RegionsView;
use vstd::prelude::*;

verus! {

/// Every frame of a layout fits its region: as far as the regions go, the
/// frame of the `i`-th region is no larger than that region. Content that
/// does not fit overflows its frame; the frame does not grow for it.
pub proof fn law_frames_fit_their_regions(
    engine: Engine,
    content: Content,
    styles: Styles,
    regions: RegionsView,
)
    ensures
        layout_fragment(engine, content, styles, regions) matches Ok(frames) ==> forall|i: int|
            0 <= i < frames.len() ==> (regions.at(i) matches Some(size) ==> size.x.fits(
                (#[trigger] frames[i]).size.x,
            ) && size.y.fits(frames[i].size.y)),
{
    reveal(layout_fragment);
    reveal(layout_fragment_def);
    let route = engine.route.extend();
    if route.within(MAX_LAYOUT_DEPTH) {
        let children = match *content.elem {
            Elem::Flow(flow) => flow.children@,
            _ => realized(content, styles),
        };
        let state = FlowState::new(Engine { route }, styles, content.span, children, regions);
        law_flow_keeps_pace(state, children);
        if state.layout(children) is Ok {
            let frames = state.layout(children)->Ok_0;
            let done = choose|done: FlowState|
                done.finished == frames && #[trigger] done.keeps_pace(state) && done.finished.len()
                    > state.finished.len();
            assert forall|i: int| 0 <= i < frames.len() implies (regions.at(i) matches Some(
                size,
            ) ==> size.x.fits((#[trigger] frames[i]).size.x) && size.y.fits(frames[i].size.y)) by {
                assert(state.regions.at(i) == regions.at(i));
                assert(state.region_size(i - state.finished.len()) == regions.at(i));
                assert(done.finished[i] == frames[i]);
            }
        }
    }
}

} // verus!
