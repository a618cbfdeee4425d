//! A small static-site builder's core: a front-matter parser that turns raw
//! document text into a typed configuration and a body, a two-phase article
//! renderer that expands template expressions and converts Markdown through
//! outside engines, and the pure bookkeeping around a whole-site build
//! (tag and category indices, grouping of shared template failures).

pub mod article;
pub mod bindings;
pub mod engine;
pub mod error;
pub mod parse;
pub mod site;
pub mod text;
pub mod util;
