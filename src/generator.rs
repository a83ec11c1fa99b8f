//! Custom-element code generation from an extracted component structure.
use vstd::prelude::*;

use crate::react::{strings_view, table_view, ComponentStructure, StructV, Table};
use crate::text::{char_upper, chars_of, push_char, push_str, upper_of};

verus! {

/// Upper-case mapping of the first character of every `-`-separated
/// segment among the first `n` characters of `s`; the dashes are dropped.
pub open spec fn pascal_prefix(s: Seq<char>, n: int) -> Seq<char>
    decreases n,
{
    if n <= 0 {
        Seq::empty()
    } else {
        let c = s[n - 1];
        let piece = if c == '-' {
            Seq::empty()
        } else if n - 1 == 0 || s[n - 2] == '-' {
            upper_of(c)
        } else {
            seq![c]
        };
        pascal_prefix(s, n - 1) + piece
    }
}

/// `kebab-case` to `PascalCase`.
pub open spec fn pascal(s: Seq<char>) -> Seq<char> {
    pascal_prefix(s, s.len() as int)
}

/// Convert a kebab-case tag name to a PascalCase class name.
pub fn to_pascal_case(s: &str) -> (r: String)
    ensures
        r@ == pascal(s@),
{
    let v = chars_of(s);
    let mut out = String::new();
    let mut i: usize = 0;
    while i < v.len()
        invariant
            0 <= i <= v@.len(),
            v@ == s@,
            out@ == pascal_prefix(v@, i as int),
        decreases v@.len() - i,
    {
        let c = v[i];
        if c == '-' {
        } else if i == 0 || v[i - 1] == '-' {
            let u = char_upper(c);
            push_str(&mut out, u.as_str());
        } else {
            push_char(&mut out, c);
        }
        i += 1;
        assert(out@ =~= pascal_prefix(v@, i as int));
    }
    out
}

/// One character escaped for a single-quoted script string.
pub open spec fn js_escape_char(c: char) -> Seq<char> {
    if c == '\\' {
        seq!['\\', '\\']
    } else if c == '\'' {
        seq!['\\', '\'']
    } else if c == '\n' {
        seq!['\\', 'n']
    } else {
        seq![c]
    }
}

/// `s` with backslash, single quote and new line escaped.
pub open spec fn js_escaped(s: Seq<char>) -> Seq<char>
    decreases s.len(),
{
    if s.len() == 0 {
        Seq::empty()
    } else {
        js_escaped(s.drop_last()) + js_escape_char(s.last())
    }
}

fn push_js_escaped(out: &mut String, s: &str)
    ensures
        final(out)@ == old(out)@ + js_escaped(s@),
{
    let v = chars_of(s);
    let mut i: usize = 0;
    while i < v.len()
        invariant
            0 <= i <= v@.len(),
            v@ == s@,
            out@ == old(out)@ + js_escaped(v@.subrange(0, i as int)),
        decreases v@.len() - i,
    {
        let c = v[i];
        if c == '\\' {
            push_char(out, '\\');
            push_char(out, '\\');
        } else if c == '\'' {
            push_char(out, '\\');
            push_char(out, '\'');
        } else if c == '\n' {
            push_char(out, '\\');
            push_char(out, 'n');
        } else {
            push_char(out, c);
        }
        assert(v@.subrange(0, i + 1).drop_last() =~= v@.subrange(0, i as int));
        i += 1;
        assert(out@ =~= old(out)@ + js_escaped(v@.subrange(0, i as int)));
    }
    assert(v@.subrange(0, v@.len() as int) =~= v@);
}

/// Escape a string for embedding in a single-quoted script string.
pub fn escape_string(s: &str) -> (r: String)
    ensures
        r@ == js_escaped(s@),
{
    let mut out = String::new();
    push_js_escaped(&mut out, s);
    out
}

/// One table entry as a line of an object literal: `  key: 'classes',`.
pub open spec fn table_line(k: Seq<char>, v: Seq<char>) -> Seq<char> {
    "  "@ + k + ": '"@ + js_escaped(v) + "',"@
}

/// The lines of the first `n` entries, joined by new lines.
pub open spec fn table_text(t: Table, n: int) -> Seq<char>
    decreases n,
{
    if n <= 0 {
        Seq::empty()
    } else if n == 1 {
        table_line(t[0].0, t[0].1)
    } else {
        table_text(t, n - 1) + "\n"@ + table_line(t[n - 1].0, t[n - 1].1)
    }
}

/// The first `n` names, each single-quoted, joined by `, `.
pub open spec fn attr_list_text(a: Seq<Seq<char>>, n: int) -> Seq<char>
    decreases n,
{
    if n <= 0 {
        Seq::empty()
    } else if n == 1 {
        "'"@ + a[0] + "'"@
    } else {
        attr_list_text(a, n - 1) + ", '"@ + a[n - 1] + "'"@
    }
}

fn table_entries(t: &Vec<(String, String)>) -> (r: String)
    ensures
        r@ == table_text(table_view(t@), t@.len() as int),
{
    let mut out = String::new();
    let mut i: usize = 0;
    while i < t.len()
        invariant
            0 <= i <= t@.len(),
            out@ == table_text(table_view(t@), i as int),
        decreases t@.len() - i,
    {
        if i > 0 {
            push_str(&mut out, "\n");
        }
        push_str(&mut out, "  ");
        push_str(&mut out, t[i].0.as_str());
        push_str(&mut out, ": '");
        push_js_escaped(&mut out, t[i].1.as_str());
        push_str(&mut out, "',");
        i += 1;
        assert(out@ =~= table_text(table_view(t@), i as int));
    }
    out
}

fn attr_list(a: &Vec<String>) -> (r: String)
    ensures
        r@ == attr_list_text(strings_view(a@), a@.len() as int),
{
    let mut out = String::new();
    let mut i: usize = 0;
    while i < a.len()
        invariant
            0 <= i <= a@.len(),
            out@ == attr_list_text(strings_view(a@), i as int),
        decreases a@.len() - i,
    {
        if i > 0 {
            push_str(&mut out, ", '");
        } else {
            push_str(&mut out, "'");
        }
        push_str(&mut out, a[i].as_str());
        push_str(&mut out, "'");
        i += 1;
        assert(out@ =~= attr_list_text(strings_view(a@), i as int));
    }
    out
}

/// The custom-element module for component `s` under tag `tag`: lookup
/// tables, the observed attributes, and an element class that adopts the
/// page's style sheets once per page load and renders a button whose class is
/// base + variant + size (+ disabled) classes; it registers itself only
/// where `customElements` exists.
pub open spec fn component_js(tag: Seq<char>, s: StructV) -> Seq<char> {
    "/**\n * "@
        + pascal(tag)
        + ": custom element preview of the "@
        + s.name
        + " component\n * Tag: <"@
        + tag
        + ">\n */\n\nconst variantClasses = {\n"@
        + table_text(s.variants, s.variants.len() as int)
        + "\n};\n\nconst sizeClasses = {\n"@
        + table_text(s.sizes, s.sizes.len() as int)
        + "\n};\n\nconst baseClasses = '"@
        + js_escaped(s.base)
        + "';\nconst disabledClasses = '"@
        + js_escaped(s.disabled)
        + "';\n\n// Cache for adopted stylesheets (all page stylesheets)\nlet cachedSheets = null;\n\nexport class "@
        + pascal(tag)
        + " extends HTMLElement {\n  static observedAttributes = ["@
        + attr_list_text(s.attrs, s.attrs.len() as int)
        + "];\n\n  #button = null;\n\n  constructor() {\n    super();\n    this.attachShadow({ mode: 'open' });\n  }\n\n  connectedCallback() {\n    this.#adoptStyles();\n    this.#render();\n  }\n\n  attributeChangedCallback() {\n    this.#render();\n  }\n\n  #adoptStyles() {\n    if (!this.shadowRoot) return;\n\n    // Use cached sheets if available\n    if (cachedSheets) {\n      this.shadowRoot.adoptedStyleSheets = cachedSheets;\n      return;\n    }\n\n    // Find and adopt page stylesheets\n    const sheets = [];\n    for (const sheet of document.styleSheets) {\n      try {\n        // Clone the stylesheet for adoption\n        const clone = new CSSStyleSheet();\n        const rules = Array.from(sheet.cssRules).map(r => r.cssText).join('\\\\n');\n        clone.replaceSync(rules);\n        sheets.push(clone);\n      } catch (e) {\n        // Cross-origin stylesheets can't be accessed, skip them\n      }\n    }\n\n    if (sheets.length > 0) {\n      cachedSheets = sheets; // Cache all sheets\n      this.shadowRoot.adoptedStyleSheets = sheets;\n    }\n  }\n\n  #render() {\n    if (!this.shadowRoot) return;\n\n    const variant = this.getAttribute('variant') || '"@
        + s.default_variant
        + "';\n    const size = this.getAttribute('size') || '"@
        + s.default_size
        + "';\n    const disabled = this.hasAttribute('disabled');\n    const loading = this.hasAttribute('loading');\n\n    const isDisabled = disabled || loading;\n\n    const classes = [\n      baseClasses,\n      variantClasses[variant] ?? variantClasses['"@
        + s.default_variant
        + "'],\n      sizeClasses[size] ?? sizeClasses['"@
        + s.default_size
        + "'],\n      isDisabled ? disabledClasses : '',\n    ]\n      .filter(Boolean)\n      .join(' ');\n\n    // Clear existing button if any\n    if (this.#button) {\n      this.#button.remove();\n    }\n\n    this.#button = document.createElement('button');\n    this.#button.type = 'button';\n    this.#button.className = classes;\n    this.#button.disabled = isDisabled;\n\n    if (isDisabled) {\n      this.#button.setAttribute('aria-disabled', 'true');\n    }\n    if (loading) {\n      this.#button.setAttribute('aria-busy', 'true');\n    }\n\n    if (loading) {\n      const span = document.createElement('span');\n      span.setAttribute('aria-hidden', 'true');\n      span.textContent = 'Loading...';\n      this.#button.appendChild(span);\n    } else {\n      // Use slot for content\n      const slot = document.createElement('slot');\n      this.#button.appendChild(slot);\n    }\n\n    this.shadowRoot.appendChild(this.#button);\n  }\n}\n\n// Register the custom element\nif (typeof customElements !== 'undefined') {\n  customElements.define('"@
        + tag
        + "', "@
        + pascal(tag)
        + ");\n}\n\nexport default "@
        + pascal(tag)
        + ";\n"@
}

/// Generate the custom-element source for a component structure.
pub fn generate_web_component(tag_name: &str, structure: &ComponentStructure) -> (r: String)
    ensures
        r@ == component_js(tag_name@, structure@),
{
    let class_name = to_pascal_case(tag_name);
    let variant_entries = table_entries(&structure.variant_lookup);
    let size_entries = table_entries(&structure.size_lookup);
    let attrs_array = attr_list(&structure.observed_attributes);
    let base_classes = escape_string(structure.base_classes.as_str());
    let disabled_classes = escape_string(structure.disabled_classes.as_str());
    let mut out = String::new();
    push_str(&mut out, "/**\n * ");
    push_str(&mut out, class_name.as_str());
    push_str(&mut out, ": custom element preview of the ");
    push_str(&mut out, structure.name.as_str());
    push_str(&mut out, " component\n * Tag: <");
    push_str(&mut out, tag_name);
    push_str(&mut out, ">\n */\n\nconst variantClasses = {\n");
    push_str(&mut out, variant_entries.as_str());
    push_str(&mut out, "\n};\n\nconst sizeClasses = {\n");
    push_str(&mut out, size_entries.as_str());
    push_str(&mut out, "\n};\n\nconst baseClasses = '");
    push_str(&mut out, base_classes.as_str());
    push_str(&mut out, "';\nconst disabledClasses = '");
    push_str(&mut out, disabled_classes.as_str());
    push_str(&mut out, "';\n\n// Cache for adopted stylesheets (all page stylesheets)\nlet cachedSheets = null;\n\nexport class ");
    push_str(&mut out, class_name.as_str());
    push_str(&mut out, " extends HTMLElement {\n  static observedAttributes = [");
    push_str(&mut out, attrs_array.as_str());
    push_str(&mut out, "];\n\n  #button = null;\n\n  constructor() {\n    super();\n    this.attachShadow({ mode: 'open' });\n  }\n\n  connectedCallback() {\n    this.#adoptStyles();\n    this.#render();\n  }\n\n  attributeChangedCallback() {\n    this.#render();\n  }\n\n  #adoptStyles() {\n    if (!this.shadowRoot) return;\n\n    // Use cached sheets if available\n    if (cachedSheets) {\n      this.shadowRoot.adoptedStyleSheets = cachedSheets;\n      return;\n    }\n\n    // Find and adopt page stylesheets\n    const sheets = [];\n    for (const sheet of document.styleSheets) {\n      try {\n        // Clone the stylesheet for adoption\n        const clone = new CSSStyleSheet();\n        const rules = Array.from(sheet.cssRules).map(r => r.cssText).join('\\\\n');\n        clone.replaceSync(rules);\n        sheets.push(clone);\n      } catch (e) {\n        // Cross-origin stylesheets can't be accessed, skip them\n      }\n    }\n\n    if (sheets.length > 0) {\n      cachedSheets = sheets; // Cache all sheets\n      this.shadowRoot.adoptedStyleSheets = sheets;\n    }\n  }\n\n  #render() {\n    if (!this.shadowRoot) return;\n\n    const variant = this.getAttribute('variant') || '");
    push_str(&mut out, structure.default_variant.as_str());
    push_str(&mut out, "';\n    const size = this.getAttribute('size') || '");
    push_str(&mut out, structure.default_size.as_str());
    push_str(&mut out, "';\n    const disabled = this.hasAttribute('disabled');\n    const loading = this.hasAttribute('loading');\n\n    const isDisabled = disabled || loading;\n\n    const classes = [\n      baseClasses,\n      variantClasses[variant] ?? variantClasses['");
    push_str(&mut out, structure.default_variant.as_str());
    push_str(&mut out, "'],\n      sizeClasses[size] ?? sizeClasses['");
    push_str(&mut out, structure.default_size.as_str());
    push_str(&mut out, "'],\n      isDisabled ? disabledClasses : '',\n    ]\n      .filter(Boolean)\n      .join(' ');\n\n    // Clear existing button if any\n    if (this.#button) {\n      this.#button.remove();\n    }\n\n    this.#button = document.createElement('button');\n    this.#button.type = 'button';\n    this.#button.className = classes;\n    this.#button.disabled = isDisabled;\n\n    if (isDisabled) {\n      this.#button.setAttribute('aria-disabled', 'true');\n    }\n    if (loading) {\n      this.#button.setAttribute('aria-busy', 'true');\n    }\n\n    if (loading) {\n      const span = document.createElement('span');\n      span.setAttribute('aria-hidden', 'true');\n      span.textContent = 'Loading...';\n      this.#button.appendChild(span);\n    } else {\n      // Use slot for content\n      const slot = document.createElement('slot');\n      this.#button.appendChild(slot);\n    }\n\n    this.shadowRoot.appendChild(this.#button);\n  }\n}\n\n// Register the custom element\nif (typeof customElements !== 'undefined') {\n  customElements.define('");
    push_str(&mut out, tag_name);
    push_str(&mut out, "', ");
    push_str(&mut out, class_name.as_str());
    push_str(&mut out, ");\n}\n\nexport default ");
    push_str(&mut out, class_name.as_str());
    push_str(&mut out, ";\n");
    assert(out@ =~= component_js(tag_name@, structure@));
    out
}

} // verus!
