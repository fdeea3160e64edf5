//! What a layout call carries along, and how a layout can fail.

use crate::content::Span;
use vstd::prelude::*;

verus! {

/// How deep layouts may nest.
pub const MAX_LAYOUT_DEPTH: usize = 72;

/// How deep the current layout is nested in other layouts.
#[derive(Clone, Copy, PartialEq, Eq, Structural, Debug, Hash)]
pub struct Route {
    pub depth: usize,
}

impl Route {
    pub open spec fn root_spec() -> Route {
        Route { depth: 0 }
    }

    /// The route of a layout that is nested in no other.
    #[verifier::when_used_as_spec(root_spec)]
    pub fn root() -> (r: Route)
        ensures
            r == Route::root_spec(),
    {
        Route { depth: 0 }
    }

    pub open spec fn extend_spec(self) -> Route {
        Route { depth: if self.depth < usize::MAX { (self.depth + 1) as usize } else { self.depth } }
    }

    /// The route of a layout that is nested in this one.
    #[verifier::when_used_as_spec(extend_spec)]
    pub fn extend(self) -> (r: Route)
        ensures
            r == self.extend_spec(),
    {
        Route { depth: if self.depth < usize::MAX { self.depth + 1 } else { self.depth } }
    }

    pub open spec fn within_spec(self, depth: usize) -> bool {
        self.depth <= depth
    }

    /// Whether the layout is nested no deeper than `depth`.
    #[verifier::when_used_as_spec(within_spec)]
    pub fn within(self, depth: usize) -> (r: bool)
        ensures
            r == self.within_spec(depth),
    {
        self.depth <= depth
    }

    /// How many more layouts may nest below a layout on this route, and one
    /// more; nothing once the route is too deep.
    pub open spec fn depth_left(self) -> nat {
        if self.depth <= MAX_LAYOUT_DEPTH {
            (MAX_LAYOUT_DEPTH - self.depth + 1) as nat
        } else {
            0
        }
    }
}

/// What every layout call has at hand.
#[derive(Clone, Copy, PartialEq, Eq, Structural, Debug, Hash)]
pub struct Engine {
    /// The route to the current layout.
    pub route: Route,
}

impl Engine {
    pub open spec fn new_spec() -> Engine {
        Engine { route: Route::root() }
    }

    /// An engine at the root of all layouts.
    #[verifier::when_used_as_spec(new_spec)]
    pub fn new() -> (r: Engine)
        ensures
            r == Engine::new_spec(),
    {
        Engine { route: Route::root() }
    }
}

/// Why a layout failed, and for which content, by its place in the source.
#[derive(Clone, Copy, PartialEq, Eq, Structural, Debug, Hash)]
pub enum LayoutError {
    /// A flow holds a child that is not block-level.
    UnexpectedFlowChild(Span),
    /// The root of a document holds something that is not a page.
    ExpectedPage(Span),
    /// A flow must fill a region of infinite width.
    InfiniteWidth(Span),
    /// A flow must fill a region of infinite height.
    InfiniteHeight(Span),
    /// Layouts are nested too deeply.
    MaxLayoutDepth(Span),
    /// A footnote has no location.
    UnlocatedFootnote(Span),
    /// A float is aligned neither automatically nor at the top or bottom.
    FloatPlacement(Span),
}

impl LayoutError {
    pub open spec fn span_spec(self) -> Span {
        match self {
            LayoutError::UnexpectedFlowChild(span) => span,
            LayoutError::ExpectedPage(span) => span,
            LayoutError::InfiniteWidth(span) => span,
            LayoutError::InfiniteHeight(span) => span,
            LayoutError::MaxLayoutDepth(span) => span,
            LayoutError::UnlocatedFootnote(span) => span,
            LayoutError::FloatPlacement(span) => span,
        }
    }

    /// The place in the source of the content that the error is about.
    #[verifier::when_used_as_spec(span_spec)]
    pub fn span(self) -> (r: Span)
        ensures
            r == self.span_spec(),
    {
        match self {
            LayoutError::UnexpectedFlowChild(span) => span,
            LayoutError::ExpectedPage(span) => span,
            LayoutError::InfiniteWidth(span) => span,
            LayoutError::InfiniteHeight(span) => span,
            LayoutError::MaxLayoutDepth(span) => span,
            LayoutError::UnlocatedFootnote(span) => span,
            LayoutError::FloatPlacement(span) => span,
        }
    }

    /// What the message of the error says.
    pub open spec fn text(self) -> Seq<char> {
        match self {
            LayoutError::UnexpectedFlowChild(_) => "unexpected flow child"@,
            LayoutError::ExpectedPage(_) => "expected page element"@,
            LayoutError::InfiniteWidth(_) => "cannot expand into infinite width"@,
            LayoutError::InfiniteHeight(_) => "cannot expand into infinite height"@,
            LayoutError::MaxLayoutDepth(_) => "maximum layout depth exceeded"@,
            LayoutError::UnlocatedFootnote(_) => "footnote has no location"@,
            LayoutError::FloatPlacement(_) => "floating placement must be `auto`, `top`, or `bottom`"@,
        }
    }

    /// The message of the error.
    pub fn message(&self) -> (r: &'static str)
        ensures
            r@ == self.text(),
    {
        match self {
            LayoutError::UnexpectedFlowChild(_) => "unexpected flow child",
            LayoutError::ExpectedPage(_) => "expected page element",
            LayoutError::InfiniteWidth(_) => "cannot expand into infinite width",
            LayoutError::InfiniteHeight(_) => "cannot expand into infinite height",
            LayoutError::MaxLayoutDepth(_) => "maximum layout depth exceeded",
            LayoutError::UnlocatedFootnote(_) => "footnote has no location",
            LayoutError::FloatPlacement(_) => "floating placement must be `auto`, `top`, or `bottom`",
        }
    }

    /// A hint at what can be done about the error, where there is one.
    pub fn hint(&self) -> (r: Option<&'static str>)
        ensures
            r is Some <==> *self is MaxLayoutDepth,
            r matches Some(hint) ==> hint@
                == "try to reduce the amount of nesting in your layout"@,
    {
        match self {
            LayoutError::MaxLayoutDepth(_) => Some(
                "try to reduce the amount of nesting in your layout",
            ),
            _ => None,
        }
    }
}

} // verus!
