//! The header block at the top of a document, between two `---` lines.
use vstd::prelude::*;

use crate::inline::opt_view;
use crate::text::{is_ws, trim_end_by, at, at_exec, chars_of, find_exec, find_from, lemma_find_from, scan, scan_ws, string_from, trim_range, trimmed, wsp};

verus! {

/// The fields of a document's header.
#[derive(Debug, Clone, PartialEq)]
pub struct Frontmatter {
    /// Page title.
    pub title: String,
    /// Page description.
    pub description: Option<String>,
    /// Component the page documents.
    pub component: Option<String>,
    /// Position in the navigation; lower comes first.
    pub order: Option<i32>,
    /// Whether the page is listed in the navigation.
    pub nav: bool,
    /// Output path override.
    pub slug: Option<String>,
}

/// A header shows in the navigation unless it says otherwise.
pub fn default_true() -> (r: bool)
    ensures
        r,
{
    true
}

impl Default for Frontmatter {
    /// An empty header: no title, listed in the navigation.
    fn default() -> (r: Frontmatter)
        ensures
            r.title@.len() == 0,
            r.description is None,
            r.component is None,
            r.order is None,
            r.nav,
            r.slug is None,
    {
        Frontmatter {
            title: String::new(),
            description: None,
            component: None,
            order: None,
            nav: default_true(),
            slug: None,
        }
    }
}

/// Errors of header parsing.
#[derive(Debug, Clone, PartialEq)]
pub enum FrontmatterError {
    /// The header block has no closing `---` line.
    Unclosed,
    /// The header is not valid; the parser's message.
    InvalidYaml(String),
}

/// A document cut into its header text and the rest.
#[derive(Debug, Clone, PartialEq)]
pub struct HeaderSplit {
    /// The header's text, trimmed, when there is a header.
    pub header: Option<String>,
    /// What follows the header (the whole document when there is none).
    pub body: String,
}

/// Where a document's header starts: after leading white space.
pub open spec fn header_start(s: Seq<char>) -> int {
    scan(s, 0, s.len() as int, wsp())
}

/// The document opens with a `---` marker.
pub open spec fn has_header(s: Seq<char>) -> bool {
    at(s, header_start(s), "---"@)
}

/// Position of the closing `\n---` of the header, if any.
pub open spec fn header_close(s: Seq<char>) -> Option<int> {
    find_from(s, "\n---"@, header_start(s) + 3)
}

/// The header's text: between the markers, trimmed.
pub open spec fn header_text(s: Seq<char>) -> Seq<char> {
    trimmed(s, header_start(s) + 3, header_close(s)->0)
}

/// What follows the closing marker, leading white space removed.
pub open spec fn body_after(s: Seq<char>) -> Seq<char> {
    s.subrange(scan(s, header_close(s)->0 + 4, s.len() as int, wsp()), s.len() as int)
}

/// Split `source` into header text and body: no marker gives no header and
/// the whole input; a marker without a closing one is `Unclosed`; else the
/// header is the trimmed text between the markers and the body what follows
/// the closing marker, with leading white space removed.
pub fn split_frontmatter(source: &str) -> (r: Result<HeaderSplit, FrontmatterError>)
    ensures
        !has_header(source@) ==> (r matches Ok(h) && h.header is None && h.body@ == source@),
        has_header(source@) && header_close(source@) is None ==> r == Err::<
            HeaderSplit,
            FrontmatterError,
        >(FrontmatterError::Unclosed),
        has_header(source@) && header_close(source@) is Some ==> (r matches Ok(h) && opt_view(
            h.header,
        ) == Some(header_text(source@)) && h.body@ == body_after(source@)),
{
    let v = chars_of(source);
    let n = v.len();
    let a = scan_ws(&v, 0, n);
    if !at_exec(&v, a, "---") {
        return Ok(HeaderSplit { header: None, body: string_from(&v, 0, n) });
    }
    proof {
        reveal_strlit("---");
        reveal_strlit("\n---");
    }
    match find_exec(&v, "\n---", a + 3) {
        None => Err(FrontmatterError::Unclosed),
        Some(c) => {
            proof {
                lemma_find_from(v@, "\n---"@, a + 3);
            }
            let (x, y) = trim_range(&v, a + 3, c);
            let b = scan_ws(&v, c + 4, n);
            assert(v@.subrange(0, n as int) =~= v@);
            Ok(HeaderSplit { header: Some(string_from(&v, x, y)), body: string_from(&v, b, n) })
        },
    }
}

/// A document written as a header block holding `header`, then `body`.
pub open spec fn header_block(header: Seq<char>, body: Seq<char>) -> Seq<char> {
    "---\n"@ + header + "\n---\n"@ + body
}

proof fn lemma_find_shift(s: Seq<char>, t: Seq<char>, pat: Seq<char>, off: int, i: int, j: int)
    requires
        0 <= off,
        off + t.len() <= s.len(),
        s.subrange(off, off + t.len()) == t,
        0 <= i <= j,
        find_from(t, pat, i) == Some(j),
    ensures
        find_from(s, pat, off + i) == Some(off + j),
    decreases j - i,
{
    lemma_find_from(t, pat, i);
    assert forall|k: int| i <= k <= j implies at(s, off + k, pat) == at(t, k, pat) by {
        assert(s.subrange(off + k, off + k + pat.len()) =~= t.subrange(k, k + pat.len()));
    }
    if i < j {
        assert(!at(t, i, pat));
        lemma_find_shift(s, t, pat, off, i + 1, j);
    }
}

/// Header framing survives a round trip: a document written as a header
/// block and a body splits back into that header text and that body, when
/// the header has no white space at its ends and holds no closing marker,
/// and the body does not start with white space.
pub proof fn lemma_header_round_trip(header: Seq<char>, body: Seq<char>)
    requires
        header.len() == 0 || (!is_ws(header[0]) && !is_ws(header.last())),
        find_from(seq!['\n'] + header + "\n---"@, "\n---"@, 0) == Some(header.len() + 1int),
        body.len() == 0 || !is_ws(body[0]),
    ensures
        has_header(header_block(header, body)),
        header_close(header_block(header, body)) is Some,
        header_text(header_block(header, body)) == header,
        body_after(header_block(header, body)) == body,
{
    reveal_strlit("---\n");
    reveal_strlit("\n---\n");
    reveal_strlit("\n---");
    reveal_strlit("---");
    let s = header_block(header, body);
    let hl = header.len() as int;
    let n = s.len() as int;
    assert(s[0] == '-');
    assert(header_start(s) == 0);
    assert(s.subrange(0, 3) =~= "---"@);
    let t = seq!['\n'] + header + "\n---"@;
    assert(s.subrange(3, 3 + t.len() as int) =~= t);
    lemma_find_shift(s, t, "\n---"@, 3, 0, hl + 1);
    assert(header_close(s) == Some(hl + 4));
    assert(s[3] == '\n');
    reveal_with_fuel(scan, 3);
    reveal_with_fuel(trim_end_by, 2);
    if hl > 0 {
        assert(s[4] == header[0]);
        assert(s[hl + 3] == header.last());
    }
    assert(scan(s, 3, hl + 4, wsp()) == 4);
    assert(trim_end_by(s, 4, hl + 4, wsp()) == hl + 4);
    assert(s.subrange(4, hl + 4) =~= header);
    assert(s[hl + 8] == '\n');
    if body.len() > 0 {
        assert(s[hl + 9] == body[0]);
    }
    assert(scan(s, hl + 8, n, wsp()) == hl + 9);
    assert(s.subrange(hl + 9, n) =~= body);
}

} // verus!
