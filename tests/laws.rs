use veneer::frontmatter::{split_frontmatter, FrontmatterError};
use veneer::inline::{html_escape, parse_inline_jsx, to_custom_element, PropValue};
use veneer::parser::slugify;
use veneer::react::{extract_record, ReactAdapter, TransformError};
use veneer::registry::ComponentRegistry;
use veneer::site::transform_page;
use veneer::codeblock::{BlockMode, CodeBlock, Language};

#[test]
fn input_without_header_is_returned_unchanged() {
    let source = "# Just Markdown\n\nNo frontmatter here.";
    let split = split_frontmatter(source).unwrap();
    assert!(split.header.is_none());
    assert_eq!(split.body, source);
}

#[test]
fn header_is_cut_from_body() {
    let source = "---\ntitle: Button\norder: 1\n---\n\n# Button Component\n";
    let split = split_frontmatter(source).unwrap();
    assert_eq!(split.header, Some("title: Button\norder: 1".to_string()));
    assert!(split.body.starts_with("# Button Component"));
}

#[test]
fn errors_on_unclosed_frontmatter() {
    let source = "---\ntitle: Test\n# No closing";

    let result = split_frontmatter(source);

    assert!(matches!(result, Err(FrontmatterError::Unclosed)));
}

#[test]
fn handles_no_frontmatter() {
    let source = "# Just Markdown\n\nNo frontmatter here.";

    let split = split_frontmatter(source).unwrap();

    assert!(split.header.is_none());
    assert_eq!(split.body, source);
}

#[test]
fn missing_variant_table_is_the_only_failure() {
    let adapter = ReactAdapter::new();
    let result = adapter.extract_structure("const sizeClasses = { sm: 'h-8' };\nexport function Box() {}");
    assert!(matches!(result, Err(TransformError::MissingVariants)));
    let result = adapter.extract_structure("");
    assert!(matches!(result, Err(TransformError::MissingVariants)));
}

#[test]
fn variant_table_keeps_order_and_first_key() {
    let source = "const variantClasses = { default: 'a b', secondary: 'c' }";
    let st = ReactAdapter::new().extract_structure(source).unwrap();
    assert_eq!(st.default_variant, "default");
    assert_eq!(
        st.variant_lookup,
        vec![
            ("default".to_string(), "a b".to_string()),
            ("secondary".to_string(), "c".to_string())
        ]
    );
    assert_eq!(st.default_size, "default");
    assert_eq!(st.name, "Component");
    assert_eq!(st.disabled_classes, "opacity-50 pointer-events-none cursor-not-allowed");
}

#[test]
fn later_record_value_replaces_earlier() {
    let source = "const variantClasses = { a: 'x', b: 'y' };\nconst variantClasses = { a: 'z' };";
    let t = extract_record(source, "variantClasses").unwrap();
    assert_eq!(
        t,
        vec![("a".to_string(), "z".to_string()), ("b".to_string(), "y".to_string())]
    );
}

#[test]
fn usage_with_children_and_boolean_prop() {
    let jsx = parse_inline_jsx(r#"<Button variant="primary" disabled>Click</Button>"#).unwrap();
    assert_eq!(jsx.component, "Button");
    assert_eq!(jsx.props.len(), 2);
    assert_eq!(jsx.props.get("variant"), Some(&PropValue::String("primary".to_string())));
    assert_eq!(jsx.props.get("disabled"), Some(&PropValue::Boolean(true)));
    assert_eq!(jsx.children, Some("Click".to_string()));
    assert!(!jsx.self_closing);
    let html = to_custom_element(&jsx, "button-preview");
    assert_eq!(html, r#"<button-preview variant="primary" disabled>Click</button-preview>"#);
    assert!(html.contains(">Click<"));
}

#[test]
fn nested_same_name_tags_match_the_outer_close() {
    let jsx = parse_inline_jsx("<Card><Card>x</Card></Card>").unwrap();
    assert_eq!(jsx.component, "Card");
    assert_eq!(jsx.children, Some("<Card>x</Card>".to_string()));
}

#[test]
fn unbalanced_usage_gives_nothing() {
    assert!(parse_inline_jsx("<Card><Card>x</Card>").is_none());
    assert!(parse_inline_jsx("button").is_none());
}

#[test]
fn escaping_leaves_no_breakout_characters() {
    let e = html_escape(r#"a"b<c>d&e'f"#);
    assert_eq!(e, "a&quot;b&lt;c&gt;d&amp;e&#x27;f");
    let jsx = parse_inline_jsx(r#"<Button label='x"<&y' />"#).unwrap();
    let html = to_custom_element(&jsx, "button-preview");
    assert_eq!(html, r#"<button-preview label="x&quot;&lt;&amp;y"></button-preview>"#);
}

#[test]
fn expression_props_are_dropped() {
    let jsx = parse_inline_jsx("<Button onClick={go} />").unwrap();
    assert_eq!(to_custom_element(&jsx, "b-x"), "<b-x></b-x>");
}

#[test]
fn slug_is_idempotent() {
    assert_eq!(slugify("API Reference"), "api-reference");
    assert_eq!(slugify("  Multiple   Spaces  "), "multiple-spaces");
    for s in ["api-reference", "multiple-spaces", "a-b-c", ""] {
        assert_eq!(slugify(&slugify(s)), slugify(s));
        assert_eq!(slugify(s), s);
    }
}

fn files(list: &[(&str, &str)]) -> Vec<(String, String)> {
    list.iter().map(|(p, s)| (p.to_string(), s.to_string())).collect()
}

#[test]
fn scans_components_directory() {
    let mut registry = ComponentRegistry::new();
    let count = registry.scan_files(&files(&[(
        "components/button.tsx",
        "\nconst variantClasses = {\n  default: 'bg-primary text-white',\n  secondary: 'bg-secondary text-black',\n};\n\nexport function Button() {\n  return <button />;\n}\n",
    )]));
    assert_eq!(count, 1);
    assert!(registry.contains("Button"));
    assert!(registry.contains("button"));
}

#[test]
fn generates_web_component_from_registry() {
    let mut registry = ComponentRegistry::new();
    registry.scan_files(&files(&[(
        "components/button.tsx",
        "\nconst variantClasses = {\n  primary: 'bg-blue-500',\n};\n\nexport function Button() {}\n",
    )]));
    let result = registry
        .generate_web_component("Button", "button-preview")
        .unwrap();
    assert_eq!(result.tag_name, "button-preview");
    assert!(result.web_component.contains("bg-blue-500"));
    assert!(registry.generate_web_component("Card", "card-preview").is_err());
}

#[test]
fn skips_test_and_story_files() {
    let mut registry = ComponentRegistry::new();
    let count = registry.scan_files(&files(&[
        ("components/button.test.tsx", "const variantClasses = { test: 'x' };"),
        ("components/button.stories.tsx", "const variantClasses = { story: 'y' };"),
        ("components/index.tsx", "const variantClasses = { index: 'z' };"),
        ("components/notes.md", "const variantClasses = { md: 'w' };"),
    ]));
    assert_eq!(count, 0);
    assert!(registry.names().is_empty());
    assert!(!ComponentRegistry::candidate("components/button.test.tsx"));
    assert!(ComponentRegistry::candidate("components/button.tsx"));
}

#[test]
fn file_stem_names_an_unnamed_component() {
    let mut registry = ComponentRegistry::new();
    registry.scan_files(&files(&[("ui/chip.jsx", "const variantClasses = { a: 'b' };")]));
    assert_eq!(registry.names(), vec!["chip".to_string()]);
}

#[test]
fn rescan_replaces_the_index() {
    let mut registry = ComponentRegistry::new();
    registry.scan_files(&files(&[("a/button.tsx", "const variantClasses = { a: 'one' };\nfunction Button() {}")]));
    registry.scan_files(&files(&[("b/card.tsx", "const variantClasses = { a: 'two' };\nfunction Card() {}")]));
    assert!(!registry.contains("Button"));
    assert!(registry.contains("card"));
}

fn live(source: &str, line: usize) -> CodeBlock {
    CodeBlock::new(Language::Tsx, BlockMode::Live, source.to_string(), line)
}

#[test]
fn component_module_is_generated_once_per_page() {
    let mut registry = ComponentRegistry::new();
    registry.scan_files(&files(&[(
        "c/button.tsx",
        "const variantClasses = { primary: 'bg-blue-500' };\nexport function Button() {}",
    )]));
    let blocks = vec![
        live(r#"<Button variant="primary">One</Button>"#, 3),
        live("<Button>Two</Button>", 7),
    ];
    let page = transform_page(&blocks, &registry);
    assert_eq!(page.web_components.len(), 1);
    assert_eq!(page.generated, vec!["button".to_string()]);
    assert_eq!(page.replacements.len(), 2);
    assert_eq!(page.replacements[0].0, "block-3");
    assert_eq!(page.replacements[0].1, r#"<button-preview variant="primary">One</button-preview>"#);
    assert_eq!(page.replacements[1].1, "<button-preview>Two</button-preview>");
    assert_eq!(page.components, 2);
}

#[test]
fn header_block_round_trips() {
    let header = "title: Button\ndescription: A button";
    let body = "# Button\n\nText.";
    let doc = format!("---\n{}\n---\n{}", header, body);
    let split = split_frontmatter(&doc).unwrap();
    assert_eq!(split.header, Some(header.to_string()));
    assert_eq!(split.body, body);
}

#[test]
fn extractor_fields_and_defaults() {
    let source = r#"
type ChipProps = {
  tone?: string;
  // note: ignored
  children: string;
};
const variantClasses = { solid: 'a', soft: "b" };
const sizeClasses: Record<string, string> = { sm: 'h-1', lg: 'h-2' };
const disabledCls = 'opacity-25';
export const Chip = ({ tone = 'x', className, ...rest }: ChipProps) => null;
"#;
    let st = ReactAdapter::new().extract_structure(source).unwrap();
    assert_eq!(st.name, "Chip");
    assert_eq!(st.default_variant, "solid");
    assert_eq!(st.default_size, "sm");
    assert_eq!(st.disabled_classes, "opacity-25");
    assert_eq!(st.base_classes, "");
    assert_eq!(
        st.observed_attributes,
        vec![
            "variant".to_string(),
            "size".to_string(),
            "disabled".to_string(),
            "tone".to_string()
        ]
    );
}
