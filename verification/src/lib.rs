//! Flow layout: packing block-level content into a sequence of regions, and
//! the pagination that drives it.

pub mod bounds;
pub mod columns;
pub mod content;
pub mod document;
pub mod engine;
pub mod flow;
pub mod frame;
pub mod geom;
pub mod items;
pub mod laws;
pub mod migration;
pub mod model;
pub mod notes;
pub mod pace;
pub mod page;
pub mod par;
pub mod regions;
pub mod single;

pub use crate::columns::layout_fragment_with_columns;
pub use crate::content::FlowElem;
pub use crate::document::layout_document;
pub use crate::flow::fragment::{layout_fragment, layout_frame};
pub use crate::par::{Linebreaks, ParElem, ParbreakElem};
