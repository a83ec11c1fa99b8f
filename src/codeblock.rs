//! Fenced code blocks and the metadata carried by their info string.
use vstd::prelude::*;

use crate::text::{at_ci, at_ci_exec, chars_of, contains_ci, contains_ci_exec, decimal, find_exec, find_from, lemma_find_from, lemma_scan, non_wsp, push_decimal, push_str, scan, skip_non_ws_exec, skip_ws, skip_ws_exec, string_from, trim_end_by};

verus! {

/// Programming language of a code block.
#[derive(Debug, Clone, Copy, PartialEq, Eq, Structural, Default)]
pub enum Language {
    Tsx,
    Jsx,
    TypeScript,
    JavaScript,
    Vue,
    Svelte,
    Html,
    Css,
    Json,
    Bash,
    #[default]
    Unknown,
}

/// `t` is the lower-case word `k`, ignoring ASCII case.
pub open spec fn word_is(t: Seq<char>, k: Seq<char>) -> bool {
    t.len() == k.len() && at_ci(t, 0, k)
}

/// The language a lower-cased token names.
pub open spec fn language_of(t: Seq<char>) -> Language {
    if word_is(t, "tsx"@) {
        Language::Tsx
    } else if word_is(t, "jsx"@) {
        Language::Jsx
    } else if word_is(t, "ts"@) || word_is(t, "typescript"@) {
        Language::TypeScript
    } else if word_is(t, "js"@) || word_is(t, "javascript"@) {
        Language::JavaScript
    } else if word_is(t, "vue"@) {
        Language::Vue
    } else if word_is(t, "svelte"@) {
        Language::Svelte
    } else if word_is(t, "html"@) {
        Language::Html
    } else if word_is(t, "css"@) {
        Language::Css
    } else if word_is(t, "json"@) {
        Language::Json
    } else if word_is(t, "bash"@) || word_is(t, "sh"@) || word_is(t, "shell"@) {
        Language::Bash
    } else {
        Language::Unknown
    }
}

/// The first white-space separated token of `s` (empty if there is none).
pub open spec fn first_token(s: Seq<char>) -> Seq<char> {
    let a = skip_ws(s, 0);
    s.subrange(a, scan(s, a, s.len() as int, non_wsp()))
}

fn word_is_exec(v: &Vec<char>, a: usize, b: usize, k: &str) -> (r: bool)
    requires
        a <= b <= v@.len(),
    ensures
        r == word_is(v@.subrange(a as int, b as int), k@),
{
    let kc = chars_of(k);
    if b - a != kc.len() {
        return false;
    }
    let r = at_ci_exec(v, a, k);
    proof {
        let t = v@.subrange(a as int, b as int);
        if r {
            assert forall|j: int| 0 <= j < k@.len() implies #[trigger] crate::text::ci_eq(
                t[0 + j],
                k@[j],
            ) by {
                assert(crate::text::ci_eq(v@[a + j], k@[j]));
            }
        } else if word_is(t, k@) {
            assert forall|j: int| 0 <= j < k@.len() implies #[trigger] crate::text::ci_eq(
                v@[a + j],
                k@[j],
            ) by {
                assert(crate::text::ci_eq(t[0 + j], k@[j]));
            }
        }
    }
    r
}

impl Language {
    /// The language named by the first token of a fence's info string,
    /// compared without regard to ASCII case.
    pub fn from_info(info: &str) -> (r: Self)
        ensures
            r == language_of(first_token(info@)),
    {
        let v = chars_of(info);
        let a = skip_ws_exec(&v, 0);
        let b = skip_non_ws_exec(&v, a, v.len());
        if word_is_exec(&v, a, b, "tsx") {
            Language::Tsx
        } else if word_is_exec(&v, a, b, "jsx") {
            Language::Jsx
        } else if word_is_exec(&v, a, b, "ts") || word_is_exec(&v, a, b, "typescript") {
            Language::TypeScript
        } else if word_is_exec(&v, a, b, "js") || word_is_exec(&v, a, b, "javascript") {
            Language::JavaScript
        } else if word_is_exec(&v, a, b, "vue") {
            Language::Vue
        } else if word_is_exec(&v, a, b, "svelte") {
            Language::Svelte
        } else if word_is_exec(&v, a, b, "html") {
            Language::Html
        } else if word_is_exec(&v, a, b, "css") {
            Language::Css
        } else if word_is_exec(&v, a, b, "json") {
            Language::Json
        } else if word_is_exec(&v, a, b, "bash") || word_is_exec(&v, a, b, "sh")
            || word_is_exec(&v, a, b, "shell") {
            Language::Bash
        } else {
            Language::Unknown
        }
    }

    /// Only TSX and JSX blocks can become custom elements.
    pub fn is_transformable(&self) -> (r: bool)
        ensures
            r == (*self == Language::Tsx || *self == Language::Jsx),
    {
        matches!(self, Language::Tsx | Language::Jsx)
    }
}

/// Rendering mode for a code block.
#[derive(Debug, Clone, Copy, PartialEq, Eq, Structural, Default)]
pub enum BlockMode {
    /// Render the example as a live preview.
    Live,
    /// Interactive editing allowed.
    Editable,
    /// Syntax highlighting only.
    #[default]
    Source,
    /// Rendered in a frame, not editable.
    Preview,
}

/// The mode an info string asks for: the first of `live`, `editable`,
/// `preview` found anywhere in it (ASCII case ignored), else `Source`.
pub open spec fn mode_of(info: Seq<char>) -> BlockMode {
    if contains_ci(info, "live"@) {
        BlockMode::Live
    } else if contains_ci(info, "editable"@) {
        BlockMode::Editable
    } else if contains_ci(info, "preview"@) {
        BlockMode::Preview
    } else {
        BlockMode::Source
    }
}

impl BlockMode {
    /// Parse the mode from a fence's info string.
    pub fn from_info(info: &str) -> (r: Self)
        ensures
            r == mode_of(info@),
    {
        let v = chars_of(info);
        if contains_ci_exec(&v, "live") {
            BlockMode::Live
        } else if contains_ci_exec(&v, "editable") {
            BlockMode::Editable
        } else if contains_ci_exec(&v, "preview") {
            BlockMode::Preview
        } else {
            BlockMode::Source
        }
    }
}

/// A fenced code block of a document.
#[derive(Debug, Clone, PartialEq)]
pub struct CodeBlock {
    /// Identifier derived from the starting line: `block-<line>`.
    pub id: String,
    pub language: Language,
    pub mode: BlockMode,
    /// The code itself.
    pub source: String,
    /// Line where the block starts, counted from 1 in the whole file,
    /// header included.
    pub line_number: usize,
    /// File name hint from the info string.
    pub filename: Option<String>,
}

/// The identifier of the block that starts on `line`.
pub open spec fn block_id(line: nat) -> Seq<char> {
    "block-"@ + decimal(line)
}

impl CodeBlock {
    pub fn new(language: Language, mode: BlockMode, source: String, line_number: usize) -> (r:
        Self)
        ensures
            r.id@ == block_id(line_number as nat),
            r.language == language,
            r.mode == mode,
            r.source == source,
            r.line_number == line_number,
            r.filename is None,
    {
        let mut id = String::new();
        push_str(&mut id, "block-");
        push_decimal(&mut id, line_number);
        CodeBlock { id, language, mode, source, line_number, filename: None }
    }

    /// The block renders as a live preview: live mode, TSX or JSX.
    pub fn is_live(&self) -> (r: bool)
        ensures
            r == (self.mode == BlockMode::Live && (self.language == Language::Tsx
                || self.language == Language::Jsx)),
    {
        self.mode == BlockMode::Live && self.language.is_transformable()
    }
}

pub open spec fn quote_p() -> spec_fn(char) -> bool {
    |c: char| c == '"'
}

pub open spec fn not_quote_p() -> spec_fn(char) -> bool {
    |c: char| c != '"'
}

/// The file name an info string gives: `filename="..."` (up to the next
/// quote) when that closes, else `file=...` up to white space with quotes
/// trimmed, when that is not empty.
pub open spec fn filename_of(s: Seq<char>) -> Option<Seq<char>> {
    let quoted = match find_from(s, "filename=\""@, 0) {
        Some(i) => {
            let st = i + 10;
            let e = scan(s, st, s.len() as int, not_quote_p());
            if e < s.len() {
                Some(s.subrange(st, e))
            } else {
                None
            }
        },
        None => None,
    };
    if quoted is Some {
        quoted
    } else {
        match find_from(s, "file="@, 0) {
            Some(i) => {
                let st = i + 5;
                let e = scan(s, st, s.len() as int, non_wsp());
                let a = scan(s, st, e, quote_p());
                let b = trim_end_by(s, a, e, quote_p());
                if a < b {
                    Some(s.subrange(a, b))
                } else {
                    None
                }
            },
            None => None,
        }
    }
}

/// Extract a file name hint from a fence's info string, such as
/// `tsx filename="Button.tsx"` or `tsx file=Button.tsx`.
pub fn extract_filename(info: &str) -> (r: Option<String>)
    ensures
        r matches Some(f) ==> filename_of(info@) == Some(f@),
        r is None ==> filename_of(info@) is None,
{
    let v = chars_of(info);
    let n = v.len();
    proof {
        reveal_strlit("filename=\"");
        reveal_strlit("file=");
    }
    if let Some(i) = find_exec(&v, "filename=\"", 0) {
        proof {
            lemma_find_from(v@, "filename=\""@, 0);
        }
        let st = i + 10;
        proof {
            lemma_scan(v@, st as int, n as int, not_quote_p());
        }
        let mut e = st;
        while e < n && v[e] != '"'
            invariant
                st <= e <= n == v@.len(),
                scan(v@, e as int, n as int, not_quote_p()) == scan(
                    v@,
                    st as int,
                    n as int,
                    not_quote_p(),
                ),
            decreases n - e,
        {
            e += 1;
        }
        if e < n {
            return Some(string_from(&v, st, e));
        }
    }
    match find_exec(&v, "file=", 0) {
        Some(i) => {
            proof {
                lemma_find_from(v@, "file="@, 0);
            }
            let st = i + 5;
            let e = skip_non_ws_exec(&v, st, n);
            proof {
                lemma_scan(v@, st as int, e as int, quote_p());
            }
            let mut a = st;
            while a < e && v[a] == '"'
                invariant
                    st <= a <= e <= n == v@.len(),
                    scan(v@, a as int, e as int, quote_p()) == scan(
                        v@,
                        st as int,
                        e as int,
                        quote_p(),
                    ),
                decreases e - a,
            {
                a += 1;
            }
            proof {
                crate::text::lemma_trim_end(v@, a as int, e as int, quote_p());
            }
            let mut b = e;
            while a < b && v[b - 1] == '"'
                invariant
                    st <= a <= b <= e <= n == v@.len(),
                    trim_end_by(v@, a as int, b as int, quote_p()) == trim_end_by(
                        v@,
                        a as int,
                        e as int,
                        quote_p(),
                    ),
                decreases b - a,
            {
                b -= 1;
            }
            if a < b {
                Some(string_from(&v, a, b))
            } else {
                None
            }
        },
        None => None,
    }
}

} // verus!
