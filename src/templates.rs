//! The values a page template is rendered from.
use vstd::prelude::*;

verus! {

/// A navigation entry.
#[derive(Debug)]
pub struct NavItem {
    /// Display title.
    pub title: String,
    /// URL path.
    pub path: String,
    /// Nested entries.
    pub children: Vec<NavItem>,
    /// The entry is the current page.
    pub active: bool,
}

/// An outline entry of a rendered page.
#[derive(Debug, Clone, PartialEq)]
pub struct TocEntry {
    pub title: String,
    /// Anchor identifier.
    pub id: String,
    /// Heading level, 1 to 6.
    pub level: u8,
}

/// Everything a page template reads.
#[derive(Debug)]
pub struct Context {
    pub title: String,
    pub site_title: String,
    /// The page body as markup.
    pub content: String,
    pub nav: Vec<NavItem>,
    pub toc: Vec<TocEntry>,
    pub base_url: String,
    /// Custom-element modules to include.
    pub web_components: Vec<String>,
    /// Style sheet paths to link.
    pub styles: Vec<String>,
}

} // verus!
