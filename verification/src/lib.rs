//! caret: render a directory of markdown into one interactive page.
//!
//! The verified core of the tool: frontmatter handling, link routing,
//! markdown normalization, page assembly, per-repo settings and secrets,
//! and the request-side decisions of the editing server.

mod text;
pub mod json;
pub mod config;
pub mod links;
pub mod frontmatter;
pub mod markdown;
pub mod pages;
pub mod site;
pub mod serve;
pub mod diagrams;
