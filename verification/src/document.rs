//! Layout of content at the top level, into a document.

use crate::content::{Content, DocumentInfo, Elem, Parity, Span, StyledElem, Styles};
use crate::engine::{Engine, LayoutError, Route};
use crate::flow::realize_flow;
use crate::model::realized;
use crate::page::{
    finalize_page_run, finalized, layout_page_run, page_run, page_views, Page, PageCounter,
    PageRunLayout, PageRunView, PageView,
};
use vstd::prelude::*;

verus! {

/// A finished document: its pages, and what it says of itself.
#[derive(PartialEq, Eq, Debug, Hash)]
pub struct Document {
    /// The pages of the document, in order.
    pub pages: Vec<Page>,
    /// What the document says of itself.
    pub info: DocumentInfo,
}

impl View for Document {
    type V = Seq<PageView>;

    open spec fn view(&self) -> Seq<PageView> {
        page_views(self.pages@)
    }
}

/// The child that is there, as a value.
pub open spec fn there(next: Option<&StyledElem>) -> Option<StyledElem> {
    match next {
        Some(next) => Some(*next),
        None => None,
    }
}

/// The `i`-th child, if there is one.
pub open spec fn child_at(children: Seq<StyledElem>, i: int) -> Option<StyledElem> {
    if 0 <= i < children.len() {
        Some(children[i])
    } else {
        None
    }
}

/// The parity that a run is padded to: the one that the child after it, if
/// there is one and it is a page run, must start on.
pub open spec fn parity_before(next: Option<StyledElem>) -> Option<Parity> {
    match next {
        Some(next) => match *next.child.elem {
            Elem::Page(page) => page.clear_to,
            _ => None,
        },
        None => None,
    }
}

/// What the layout of a child of the root yields: the child must be a page
/// run, and is laid out with the parity that the child after it asks for.
pub open spec fn child_run(engine: Engine, child: StyledElem, next: Option<StyledElem>) -> Result<
    PageRunView,
    LayoutError,
> {
    match *child.child.elem {
        Elem::Page(page) => page_run(engine, page, child.styles, parity_before(next)),
        _ => Err(LayoutError::ExpectedPage(child.child.span)),
    }
}

/// The pages of the children from the `i`-th on: each child is a page run,
/// which is laid out and then finalized with the page counter as the runs
/// before it left it. A child that is no page run is an error.
pub open spec fn pages_from(
    engine: Engine,
    children: Seq<StyledElem>,
    i: nat,
    counter: PageCounter,
) -> Result<Seq<PageView>, LayoutError>
    decreases children.len() - i,
{
    if i >= children.len() {
        Ok(Seq::empty())
    } else {
        match child_run(engine, children[i as int], child_at(children, i as int + 1)) {
            Err(e) => Err(e),
            Ok(run) => match finalized(engine, run, counter) {
                Err(e) => Err(e),
                Ok(done) => match pages_from(engine, children, i + 1, done.counter) {
                    Err(e) => Err(e),
                    Ok(rest) => Ok(done.pages + rest),
                },
            },
        }
    }
}

/// What came of the layout of a run, as a value.
pub open spec fn run_view<'a>(layout: Result<PageRunLayout<'a>, LayoutError>) -> Result<
    PageRunView,
    LayoutError,
> {
    match layout {
        Ok(layout) => Ok(layout@),
        Err(e) => Err(e),
    }
}

/// What came of the layouts of the runs, as values.
pub open spec fn run_views<'a>(layouts: Seq<Result<PageRunLayout<'a>, LayoutError>>) -> Seq<
    Result<PageRunView, LayoutError>,
> {
    Seq::new(layouts.len(), |i: int| run_view(layouts[i]))
}

/// The pages of the runs from the `i`-th on, where each run was laid out
/// on its own: each is finalized with the page counter as the runs before
/// it left it. The first error is that of the document, be it that of the
/// layout of a run or that of finalizing one.
pub open spec fn pages_of_runs(
    engine: Engine,
    runs: Seq<Result<PageRunView, LayoutError>>,
    i: nat,
    counter: PageCounter,
) -> Result<Seq<PageView>, LayoutError>
    decreases runs.len() - i,
{
    if i >= runs.len() {
        Ok(Seq::empty())
    } else {
        match runs[i as int] {
            Err(e) => Err(e),
            Ok(run) => match finalized(engine, run, counter) {
                Err(e) => Err(e),
                Ok(done) => match pages_of_runs(engine, runs, i + 1, done.counter) {
                    Err(e) => Err(e),
                    Ok(rest) => Ok(done.pages + rest),
                },
            },
        }
    }
}

/// The pages of a document: those of its page runs, which are the content
/// itself or the parts of the sequence that it is. The layout starts at the
/// root of all layouts, and the counter at the first page.
pub open spec fn document(content: Content, styles: Styles) -> Result<Seq<PageView>, LayoutError> {
    pages_from(Engine { route: Route::root() }, realized(content, styles), 0, PageCounter::new())
}

/// Lays out a child of the root of a document, which must be a page run.
/// `next` is the child after it, if there is one: where that starts on a
/// page of a given parity, the run is padded to it when it is finalized.
///
/// The runs of a document do not depend on each other, so they can be laid
/// out in any order, or at the same time.
pub fn layout_child_run<'a>(engine: &Engine, child: &'a StyledElem, next: Option<&StyledElem>) -> (r:
    Result<PageRunLayout<'a>, LayoutError>)
    ensures
        match child_run(*engine, *child, there(next)) {
            Ok(run) => r is Ok && r->Ok_0@ == run,
            Err(e) => r is Err && r->Err_0 == e,
        },
{
    let page = match &*child.child.elem {
        Elem::Page(page) => page,
        _ => {
            return Err(LayoutError::ExpectedPage(child.child.span));
        },
    };
    let extend_to = match next {
        Some(next) => match &*next.child.elem {
            Elem::Page(next) => next.clear_to,
            _ => None,
        },
        None => None,
    };
    layout_page_run(engine, page, &child.styles, extend_to)
}

/// Makes a document of page runs that were laid out on their own, in the
/// order of the runs: the runs are finalized one after the other, since
/// the page counter runs through them. `info` is what the document says of
/// itself.
pub fn finalize_document<'a>(
    engine: &Engine,
    layouts: Vec<Result<PageRunLayout<'a>, LayoutError>>,
    info: DocumentInfo,
) -> (r: Result<Document, LayoutError>)
    ensures
        match pages_of_runs(*engine, run_views(layouts@), 0, PageCounter::new()) {
            Ok(pages) => r is Ok && r->Ok_0@ == pages && r->Ok_0.info == info,
            Err(e) => r is Err && r->Err_0 == e,
        },
{
    let ghost runs = run_views(layouts@);
    let ghost start = PageCounter::new();
    let mut rest = layouts;
    let mut page_counter = PageCounter::new();
    let mut pages: Vec<Page> = Vec::new();
    let n = rest.len();
    let mut i: usize = 0;
    while i < n
        invariant
            i <= n,
            n == rest@.len(),
            runs == run_views(layouts@),
            runs.len() == n,
            start == PageCounter::new(),
            forall|j: int| i <= j < n ==> run_view(#[trigger] rest@[j]) == runs[j],
            match pages_of_runs(*engine, runs, i as nat, page_counter) {
                Ok(more) => pages_of_runs(*engine, runs, 0, start) == Ok::<
                    Seq<PageView>,
                    LayoutError,
                >(page_views(pages@) + more),
                Err(e) => pages_of_runs(*engine, runs, 0, start) == Err::<
                    Seq<PageView>,
                    LayoutError,
                >(e),
            },
        decreases n - i,
    {
        let mut taken = Err(LayoutError::ExpectedPage(Span::detached()));
        core::mem::swap(&mut rest[i], &mut taken);
        let layout = match taken {
            Err(e) => {
                return Err(e);
            },
            Ok(layout) => layout,
        };
        let ghost before = page_views(pages@);
        let mut finished = match finalize_page_run(engine, layout, &mut page_counter) {
            Err(e) => {
                return Err(e);
            },
            Ok(finished) => finished,
        };
        let ghost added = page_views(finished@);
        pages.append(&mut finished);
        proof {
            assert(page_views(pages@) =~= before + added);
            match pages_of_runs(*engine, runs, i as nat + 1, page_counter) {
                Ok(more) => {
                    assert(page_views(pages@) + more =~= before + (added + more));
                },
                Err(e) => {},
            }
        }
        i += 1;
    }
    proof {
        assert(page_views(pages@) + Seq::<PageView>::empty() =~= page_views(pages@));
    }
    Ok(Document { pages, info })
}

/// Layout content into a document.
///
/// In contrast to the layout of a fragment, this does not take regions
/// since the regions are defined by the page configuration in the content
/// and the styles. What the document says of itself is what the styles say.
pub fn layout_document(engine: &Engine, content: &Content, styles: &Styles) -> (r: Result<
    Document,
    LayoutError,
>)
    ensures
        match document(*content, *styles) {
            Ok(pages) => r is Ok && r->Ok_0@ == pages && r->Ok_0.info == styles.document,
            Err(e) => r is Err && r->Err_0 == e,
        },
{
    let engine = Engine { route: Route::root() };
    let root = realize_flow(content, styles);
    let ghost children = root.children@;
    let ghost start = PageCounter::new();
    let mut page_counter = PageCounter::new();
    let mut pages: Vec<Page> = Vec::new();
    let n = root.children.len();
    let mut i: usize = 0;
    while i < n
        invariant
            i <= n,
            n == root.children@.len(),
            children == root.children@,
            children == realized(*content, *styles),
            start == PageCounter::new(),
            engine == (Engine { route: Route::root() }),
            match pages_from(engine, children, i as nat, page_counter) {
                Ok(rest) => pages_from(engine, children, 0, start) == Ok::<
                    Seq<PageView>,
                    LayoutError,
                >(page_views(pages@) + rest),
                Err(e) => pages_from(engine, children, 0, start) == Err::<
                    Seq<PageView>,
                    LayoutError,
                >(e),
            },
        decreases n - i,
    {
        let next = if i + 1 < n {
            Some(&root.children[i + 1])
        } else {
            None
        };
        assert(there(next) == child_at(children, i as int + 1));
        let layout = match layout_child_run(&engine, &root.children[i], next) {
            Err(e) => {
                return Err(e);
            },
            Ok(layout) => layout,
        };
        let ghost before = page_views(pages@);
        let mut finished = match finalize_page_run(&engine, layout, &mut page_counter) {
            Err(e) => {
                return Err(e);
            },
            Ok(finished) => finished,
        };
        let ghost added = page_views(finished@);
        pages.append(&mut finished);
        proof {
            assert(page_views(pages@) =~= before + added);
            match pages_from(engine, children, i as nat + 1, page_counter) {
                Ok(rest) => {
                    assert(page_views(pages@) + rest =~= before + (added + rest));
                },
                Err(e) => {},
            }
        }
        i += 1;
    }
    proof {
        assert(page_views(pages@) + Seq::<PageView>::empty() =~= page_views(pages@));
    }
    Ok(Document { pages, info: styles.document })
}

} // verus!
