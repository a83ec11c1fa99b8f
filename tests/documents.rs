use veneer::assets::AssetPipeline;
use veneer::codeblock::{extract_filename, BlockMode, CodeBlock, Language};
use veneer::hmr::{
    classify_event, component_message, hmr_client_script, watch_action, ChangeKind, DevServer,
    DevServerConfig, HmrMessage, WatchAction, WatchEvent,
};
use veneer::parser::slugify;

#[test]
fn parses_language() {
    assert_eq!(Language::from_info("tsx live"), Language::Tsx);
    assert_eq!(Language::from_info("jsx"), Language::Jsx);
    assert_eq!(Language::from_info("typescript"), Language::TypeScript);
    assert_eq!(Language::from_info("js"), Language::JavaScript);
    assert_eq!(Language::from_info("unknown"), Language::Unknown);
}

#[test]
fn parses_mode() {
    assert_eq!(BlockMode::from_info("tsx live"), BlockMode::Live);
    assert_eq!(BlockMode::from_info("tsx editable"), BlockMode::Editable);
    assert_eq!(BlockMode::from_info("tsx preview"), BlockMode::Preview);
    assert_eq!(BlockMode::from_info("tsx"), BlockMode::Source);
}

#[test]
fn extracts_filename() {
    assert_eq!(
        extract_filename("tsx filename=\"Button.tsx\""),
        Some("Button.tsx".to_string())
    );
    assert_eq!(
        extract_filename("tsx file=Button.tsx live"),
        Some("Button.tsx".to_string())
    );
    assert_eq!(extract_filename("tsx live"), None);
}

#[test]
fn code_block_is_live() {
    let live_tsx = CodeBlock::new(Language::Tsx, BlockMode::Live, "".to_string(), 1);
    assert!(live_tsx.is_live());

    let source_tsx = CodeBlock::new(Language::Tsx, BlockMode::Source, "".to_string(), 1);
    assert!(!source_tsx.is_live());

    let live_html = CodeBlock::new(Language::Html, BlockMode::Live, "".to_string(), 1);
    assert!(!live_html.is_live());
}

#[test]
fn slugify_works() {
    assert_eq!(slugify("Hello World"), "hello-world");
    assert_eq!(slugify("API Reference"), "api-reference");
    assert_eq!(slugify("Button (Primary)"), "button-primary");
    assert_eq!(slugify("  Multiple   Spaces  "), "multiple-spaces");
}

#[test]
fn creates_server_with_default_config() {
    let server = DevServer::new(DevServerConfig::default());
    assert_eq!(server.config.port, 7777);
}

#[test]
fn generates_css() {
    let css = AssetPipeline::generate_css();
    assert!(css.contains(":root"));
    assert!(css.contains("--background"));
    assert!(css.contains("--primary"));
}

#[test]
fn generates_js() {
    let js = AssetPipeline::generate_js();
    assert!(js.contains("addEventListener"));
    assert!(js.contains("clipboard"));
}

#[test]
fn hot_reload_decisions() {
    assert_eq!(
        classify_event("docs/a.mdx", ChangeKind::Modify),
        Some(WatchEvent::MdxModified("docs/a.mdx".to_string()))
    );
    assert_eq!(
        classify_event("src/Button.tsx", ChangeKind::Modify),
        Some(WatchEvent::ComponentModified("src/Button.tsx".to_string()))
    );
    assert_eq!(classify_event("x.txt", ChangeKind::Create), Some(WatchEvent::Created("x.txt".to_string())));
    assert_eq!(classify_event("x.txt", ChangeKind::Other), None);
    assert_eq!(
        watch_action(&WatchEvent::ComponentModified("src/Button.tsx".to_string())),
        WatchAction::Retransform { path: "src/Button.tsx".to_string(), tag_name: "button-preview".to_string() }
    );
    assert_eq!(watch_action(&WatchEvent::Deleted("a".to_string())), WatchAction::Reload);
    assert_eq!(component_message("no table here", "x-preview"), HmrMessage::Reload);
    match component_message("const variantClasses = { a: 'b' };", "x-preview") {
        HmrMessage::UpdateComponent { tag_name, web_component } => {
            assert_eq!(tag_name, "x-preview");
            assert!(web_component.contains("customElements.define('x-preview'"));
        }
        other => panic!("unexpected {:?}", other),
    }
    assert!(hmr_client_script("ws://h/__hmr").contains("new WebSocket('ws://h/__hmr')"));
}
