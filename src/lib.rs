//! Renders a parsed CommonMark document tree to HTML.
//!
//! The tree is walked as a stream of enter/exit events, which a small state
//! machine turns into nested, indented markup. A second profile wraps the
//! body in a full HTML page that links the site's stylesheets and scripts.

pub mod paths;
pub mod asset;
pub mod cmark;
pub mod nesting;
pub mod render;
pub mod shell;
pub mod converters;
pub mod converter;
pub mod program_options;
pub mod site;
