use veneer::generator::{escape_string, generate_web_component, to_pascal_case};
use veneer::inline::{parse_inline_jsx, to_custom_element, PropValue};
use veneer::react::{ComponentStructure, ReactAdapter, TransformContext, TransformError};

#[test]
fn to_pascal_case_works() {
    assert_eq!(to_pascal_case("button-preview"), "ButtonPreview");
    assert_eq!(to_pascal_case("my-component"), "MyComponent");
    assert_eq!(to_pascal_case("simple"), "Simple");
}

#[test]
fn escape_string_works() {
    assert_eq!(escape_string("hello"), "hello");
    assert_eq!(escape_string("it's"), "it\\'s");
    assert_eq!(escape_string("line1\nline2"), "line1\\nline2");
}

#[test]
fn generates_valid_web_component() {
    let structure = ComponentStructure {
        name: "Button".to_string(),
        variant_lookup: vec![
            (
                "primary".to_string(),
                "bg-primary text-primary-foreground".to_string(),
            ),
            (
                "secondary".to_string(),
                "bg-secondary text-secondary-foreground".to_string(),
            ),
        ],
        size_lookup: vec![
            ("sm".to_string(), "h-8 px-3".to_string()),
            ("md".to_string(), "h-10 px-4".to_string()),
        ],
        base_classes: "inline-flex items-center".to_string(),
        disabled_classes: "opacity-50".to_string(),
        default_variant: "primary".to_string(),
        default_size: "md".to_string(),
        observed_attributes: vec!["variant".to_string(), "size".to_string()],
    };

    let output = generate_web_component("my-button", &structure);

    assert!(output.contains("class MyButton extends HTMLElement"));
    assert!(output.contains("static observedAttributes"));
    assert!(output.contains("customElements.define('my-button'"));
    assert!(output.contains("bg-primary"));
    assert!(output.contains("adoptedStyleSheets"));
}

#[test]
fn parses_self_closing() {
    let jsx = parse_inline_jsx(r#"<Button variant="primary" />"#).unwrap();

    assert_eq!(jsx.component, "Button");
    assert!(jsx.self_closing);
    assert_eq!(
        jsx.props.get("variant"),
        Some(&PropValue::String("primary".to_string()))
    );
    assert!(jsx.children.is_none());
}

#[test]
fn parses_with_children() {
    let jsx = parse_inline_jsx(r#"<Button variant="default">Click me</Button>"#).unwrap();

    assert_eq!(jsx.component, "Button");
    assert!(!jsx.self_closing);
    assert_eq!(
        jsx.props.get("variant"),
        Some(&PropValue::String("default".to_string()))
    );
    assert_eq!(jsx.children, Some("Click me".to_string()));
}

#[test]
fn parses_boolean_props() {
    let jsx = parse_inline_jsx(r#"<Button disabled>Disabled</Button>"#).unwrap();

    assert_eq!(jsx.props.get("disabled"), Some(&PropValue::Boolean(true)));
}

#[test]
fn parses_expression_props() {
    let jsx = parse_inline_jsx(r#"<Button data={someValue}>Click</Button>"#).unwrap();

    assert_eq!(jsx.component, "Button");
    assert_eq!(jsx.children, Some("Click".to_string()));
    assert!(matches!(
        jsx.props.get("data"),
        Some(PropValue::Expression(_))
    ));
}

#[test]
fn converts_to_custom_element() {
    let jsx = parse_inline_jsx(r#"<Button variant="primary" disabled>Click</Button>"#).unwrap();
    let html = to_custom_element(&jsx, "button-preview");

    assert!(html.contains("button-preview"));
    assert!(html.contains(r#"variant="primary""#));
    assert!(html.contains("disabled"));
    assert!(html.contains("Click"));
}

#[test]
fn handles_empty_element() {
    let jsx = parse_inline_jsx(r#"<Icon name="star" />"#).unwrap();

    assert_eq!(jsx.component, "Icon");
    assert!(jsx.self_closing);
    assert_eq!(
        jsx.props.get("name"),
        Some(&PropValue::String("star".to_string()))
    );
}

#[test]
fn extracts_variant_classes() {
    let source = r#"
const variantClasses: Record<string, string> = {
  default: 'bg-primary text-primary-foreground',
  secondary: 'bg-secondary text-secondary-foreground',
};

export function Button() {
  return <button />;
}
        "#;

    let adapter = ReactAdapter::new();
    let result = adapter
        .transform(source, "button-preview", &TransformContext::default())
        .unwrap();

    assert!(result.web_component.contains("variantClasses"));
    assert!(result.web_component.contains("bg-primary"));
    assert!(result.classes_used.contains(&"bg-primary".to_string()));
}

#[test]
fn extracts_concatenated_base_classes() {
    let source = r#"
const variantClasses = { default: '' };
const baseClasses =
  'inline-flex items-center ' +
  'justify-center gap-2';

export function Button() {}
        "#;

    let adapter = ReactAdapter::new();
    let structure = adapter.extract_structure(source).unwrap();

    assert!(structure.base_classes.contains("inline-flex"));
    assert!(structure.base_classes.contains("items-center"));
    assert!(structure.base_classes.contains("justify-center"));
}

#[test]
fn extracts_simple_base_classes() {
    let source = r#"
const variantClasses = { default: '' };
const baseClasses = 'inline-flex items-center';

export function Button() {}
        "#;

    let adapter = ReactAdapter::new();
    let structure = adapter.extract_structure(source).unwrap();

    assert_eq!(structure.base_classes, "inline-flex items-center");
}

#[test]
fn errors_on_missing_variants() {
    let source = "export function Button() { return <button />; }";

    let adapter = ReactAdapter::new();
    let result = adapter.transform(source, "button-preview", &TransformContext::default());

    assert!(matches!(result, Err(TransformError::MissingVariants)));
}

#[test]
fn extracts_observed_attributes() {
    let source = r#"
const variantClasses = { default: '' };

interface ButtonProps {
  variant?: string;
  size?: string;
  disabled?: boolean;
  loading?: boolean;
}

export function Button({ variant, size, disabled, loading }: ButtonProps) {}
        "#;

    let adapter = ReactAdapter::new();
    let result = adapter
        .transform(source, "button-preview", &TransformContext::default())
        .unwrap();

    assert!(result.attributes.contains(&"variant".to_string()));
    assert!(result.attributes.contains(&"size".to_string()));
    assert!(result.attributes.contains(&"disabled".to_string()));
    assert!(result.attributes.contains(&"loading".to_string()));
}

#[test]
fn generates_valid_tag_name() {
    let source = r#"
const variantClasses = { primary: 'bg-blue-500' };
export function Button() {}
        "#;

    let adapter = ReactAdapter::new();
    let result = adapter
        .transform(source, "my-button", &TransformContext::default())
        .unwrap();

    assert_eq!(result.tag_name, "my-button");
    assert!(result.web_component.contains("my-button"));
}
