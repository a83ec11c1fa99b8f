use veneer::assets::AssetPipeline;
use veneer::codeblock::{BlockMode, CodeBlock, Language};
use veneer::frontmatter::{split_frontmatter, Frontmatter};
use veneer::parser::{parse_markdown, ParsedDoc};
use veneer::registry::ComponentRegistry;
use veneer::site::{
    build_navigation, calculate_output_path, capitalize, generate_robots, generate_sitemap,
    page_order, path_to_url, render_markdown, search_text, substitute_previews, transform_page,
    PageInfo,
};

fn frontmatter_of(yaml: &str) -> Frontmatter {
    let v: serde_yaml::Value = serde_yaml::from_str(yaml).unwrap();
    let text = |k: &str| v.get(k).and_then(|x| x.as_str()).map(|x| x.to_string());
    Frontmatter {
        title: text("title").unwrap_or_default(),
        description: text("description"),
        component: text("component"),
        order: v.get("order").and_then(|x| x.as_i64()).map(|x| x as i32),
        nav: v.get("nav").and_then(|x| x.as_bool()).unwrap_or(true),
        slug: text("slug"),
    }
}

fn parse_mdx(source: &str) -> ParsedDoc {
    let split = split_frontmatter(source).unwrap();
    let fm = split.header.as_deref().map(frontmatter_of);
    parse_markdown(source, &split.body, fm)
}

#[test]
fn parses_complete_mdx() {
    let source = r#"---
title: Button
description: A button component
---

# Button

A clickable button.

```tsx live
<Button variant="primary">Click me</Button>
```

## Variants

Different button styles.

```tsx
<Button variant="secondary">Secondary</Button>
```
"#;

    let doc = parse_mdx(source);

    let fm = doc.frontmatter.unwrap();
    assert_eq!(fm.title, "Button");
    assert_eq!(fm.description, Some("A button component".to_string()));

    assert_eq!(doc.code_blocks.len(), 2);

    let live_block = &doc.code_blocks[0];
    assert_eq!(live_block.language, Language::Tsx);
    assert_eq!(live_block.mode, BlockMode::Live);
    assert!(live_block.source.contains("variant=\"primary\""));

    let source_block = &doc.code_blocks[1];
    assert_eq!(source_block.language, Language::Tsx);
    assert_eq!(source_block.mode, BlockMode::Source);

    assert_eq!(doc.toc.len(), 2);
    assert_eq!(doc.toc[0].title, "Button");
    assert_eq!(doc.toc[0].level, 1);
    assert_eq!(doc.toc[0].id, "button");
    assert_eq!(doc.toc[1].title, "Variants");
    assert_eq!(doc.toc[1].level, 2);
}

#[test]
fn parses_without_frontmatter() {
    let source = "# Just Markdown\n\nNo frontmatter.";

    let doc = parse_mdx(source);

    assert!(doc.frontmatter.is_none());
    assert_eq!(doc.toc.len(), 1);
    assert_eq!(doc.toc[0].title, "Just Markdown");
}

#[test]
fn extracts_multiple_code_blocks() {
    let source = r#"
# Examples

```tsx live
<Button>One</Button>
```

```tsx live
<Button>Two</Button>
```

```css
.button { color: red; }
```
"#;

    let doc = parse_mdx(source);

    assert_eq!(doc.code_blocks.len(), 3);

    let live_blocks: Vec<_> = doc.code_blocks.iter().filter(|b| b.is_live()).collect();
    assert_eq!(live_blocks.len(), 2);
}

#[test]
fn block_lines_count_from_the_file_start() {
    let source = "---\ntitle: T\n---\n# H\n\n```tsx live filename=\"a.tsx\"\n<A />\n```\n";
    let doc = parse_mdx(source);
    assert_eq!(doc.code_blocks.len(), 1);
    assert_eq!(doc.code_blocks[0].line_number, 4);
    assert_eq!(doc.code_blocks[0].id, "block-4");
    assert_eq!(doc.code_blocks[0].filename, Some("a.tsx".to_string()));
    assert_eq!(doc.content, "# H\n\n```tsx live filename=\"a.tsx\"\n<A />\n```\n");
}

#[test]
fn minifies_css() {
    let css = r#"
.button {
    background-color: blue;
    padding: 10px;
}
        "#;

    let minified = AssetPipeline::minify_css(css).unwrap();

    assert!(!minified.contains('\n'));
    assert!(minified.contains(".button"));
}

#[test]
fn output_paths_follow_slug_index_and_stem() {
    assert_eq!(calculate_output_path("index.mdx", None), "index.html");
    assert_eq!(calculate_output_path("guide/index.mdx", None), "guide/index.html");
    assert_eq!(calculate_output_path("components/button.mdx", None), "components/button/index.html");
    assert_eq!(calculate_output_path("button.mdx", Some("custom")), "custom/index.html");
    assert_eq!(path_to_url("/", "index.html"), "/");
    assert_eq!(path_to_url("/", "components/button/index.html"), "/components/button/");
}

#[test]
fn pages_sort_by_order_keeping_ties() {
    let orders = vec![None, Some(2), Some(1), None, Some(2)];
    assert_eq!(page_order(&orders), vec![2, 1, 4, 0, 3]);
    assert_eq!(page_order(&vec![]), Vec::<usize>::new());
}

fn page(rel: &str, source: &str) -> PageInfo {
    let doc = parse_mdx(source);
    let slug = doc.frontmatter.as_ref().and_then(|f| f.slug.clone());
    PageInfo {
        source_path: format!("docs/{}", rel),
        relative_path: rel.to_string(),
        output_path: calculate_output_path(rel, slug.as_deref()),
        doc,
    }
}

#[test]
fn navigation_groups_pages_by_directory() {
    let pages = vec![
        page("index.mdx", "---\ntitle: Home\n---\n# Welcome\n"),
        page("components/button.mdx", "---\ntitle: Button\n---\n# Button\n"),
        page("hidden.mdx", "---\ntitle: Hidden\nnav: false\n---\n"),
        page("components/card.mdx", "# Card\n"),
    ];
    let nav = build_navigation(&pages, "/");
    assert_eq!(nav.len(), 2);
    assert_eq!(nav[0].title, "Home");
    assert_eq!(nav[0].path, "/");
    assert_eq!(nav[1].title, "Components");
    assert_eq!(nav[1].path, "/components/");
    assert_eq!(nav[1].children.len(), 2);
    assert_eq!(nav[1].children[0].title, "Button");
    assert_eq!(nav[1].children[0].path, "/components/button/");
    assert_eq!(nav[1].children[1].title, "card");
    assert_eq!(capitalize("guides"), "Guides");
}

#[test]
fn live_block_is_replaced_by_preview_and_code() {
    let mut registry = ComponentRegistry::new();
    registry.scan_files(&vec![(
        "c/button.tsx".to_string(),
        "const variantClasses = { primary: 'bg-blue-500' };\nexport function Button() {}".to_string(),
    )]);
    let content = "# Demo\n\n```tsx live\n<Button>Go</Button>\n```\n";
    let blocks = vec![CodeBlock::new(Language::Tsx, BlockMode::Live, "<Button>Go</Button>\n".to_string(), 3)];
    let page = transform_page(&blocks, &registry);
    let body = substitute_previews(content, &blocks, &page.replacements);
    assert_eq!(
        body,
        "# Demo\n\n<div class=\"preview-container\"><button-preview>Go</button-preview></div>\n\n```tsx\n<Button>Go</Button>\n```\n"
    );
    let html = render_markdown(content, &blocks, &page.replacements);
    assert!(html.contains("<h1>Demo</h1>"));
    assert!(html.contains("<button-preview>Go</button-preview>"));
}

#[test]
fn component_source_block_is_transformed_itself() {
    let registry = ComponentRegistry::new();
    let blocks = vec![CodeBlock::new(
        Language::Tsx,
        BlockMode::Live,
        "const variantClasses = { a: 'x' };\nexport function Chip() {}".to_string(),
        4,
    )];
    let page = transform_page(&blocks, &registry);
    assert_eq!(page.web_components.len(), 1);
    assert_eq!(page.web_components[0].tag_name, "preview-block-4");
    assert!(page.replacements.is_empty());
    assert_eq!(page.components, 1);
}

#[test]
fn search_text_skips_headings_and_fences() {
    let text = search_text("# Title\nfirst\n```tsx\ncode\n```\nsecond\r\n");
    assert_eq!(text, "first code second");
    let many: String = (0..12).map(|i| format!("l{}\n", i)).collect();
    assert_eq!(search_text(&many), "l0 l1 l2 l3 l4 l5 l6 l7 l8 l9");
}

#[test]
fn sitemap_and_robots() {
    let xml = generate_sitemap("https://x.dev/", &vec!["/a/".to_string()]);
    assert!(xml.contains("  <url>\n    <loc>https://x.dev/a/</loc>\n  </url>"));
    assert!(xml.starts_with("<?xml"));
    assert!(xml.ends_with("</urlset>"));
    assert_eq!(generate_robots("/"), "User-agent: *\nAllow: /\nSitemap: /sitemap.xml");
}
