//! Takeoff turns a tree of Markdown documents with optional front-matter
//! metadata into a rendered HTML site. This crate holds the verified core:
//! the document and metadata model, the Markdown code-block renderer, the
//! destination-path model and the build-pipeline decisions. Filesystem
//! walking, template rendering and Sass compilation are driven by a thin
//! unverified binary around it.

pub mod document;
pub mod launchpad;
pub mod markdown;
pub mod paths;
pub mod syntax_highlighting;
pub mod text;

pub use launchpad::Launchpad;
