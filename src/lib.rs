//! Turns component documentation written as Markdown with embedded examples
//! into static pages whose live examples render as custom elements.
//!
//! The document parser (`frontmatter`, `parser`, `codeblock`), the
//! pattern-based component extractor (`react`), the usage parser (`inline`),
//! the custom-element generator (`generator`), the component registry
//! (`registry`) and the build orchestrator's decisions (`site`) are verified
//! against the contracts stated on them.

pub mod assets;
pub mod codeblock;
pub mod frontmatter;
pub mod generator;
pub mod hmr;
pub mod inline;
pub mod parser;
pub mod paths;
pub mod react;
pub mod registry;
pub mod site;
pub mod templates;
pub mod text;
