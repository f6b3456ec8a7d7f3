//! Markdown to Word conversion: the verified core.
//!
//! The library reads Markdown into a small intermediate representation
//! (blocks and inline elements), checks the page-break directive rule,
//! and computes the layout decisions (image sizes, table grids, caption
//! numbers, Japanese/English spacing) that the Word writer needs.
use vstd::prelude::*;

pub mod config;
pub mod events;
pub mod footnotes;
pub mod ir;
pub mod laws;
pub mod layout;
pub mod markup;
pub mod parser;
pub mod picture;
pub mod preprocess;
pub mod runs;
pub mod text;

verus! {

} // verus!
