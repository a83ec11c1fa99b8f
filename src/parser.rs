//! The document parser: code blocks and heading outline of a Markdown body.
use vstd::prelude::*;

use crate::codeblock::{
    block_id, extract_filename, filename_of, first_token, language_of, mode_of, BlockMode,
    CodeBlock, Language,
};
use crate::frontmatter::{Frontmatter, FrontmatterError};
use crate::inline::opt_view;
use pulldown_cmark::{CodeBlockKind as K, Event as E, Options as O, Tag, TagEnd};

use crate::text::{alnum, chars_of, collapse, is_alnum, lower_of, push_char, push_str, to_lower};

verus! {

/// One outline entry: a heading.
#[derive(Debug, Clone, PartialEq)]
pub struct TocEntry {
    /// Heading text.
    pub title: String,
    /// Anchor identifier, the slug of the title.
    pub id: String,
    /// Heading level, 1 to 6.
    pub level: u8,
}

/// A parsed document.
#[derive(Debug, Clone)]
pub struct ParsedDoc {
    pub frontmatter: Option<Frontmatter>,
    /// The Markdown body, without the header.
    pub content: String,
    /// The fenced code blocks, in order.
    pub code_blocks: Vec<CodeBlock>,
    /// The headings, in order.
    pub toc: Vec<TocEntry>,
}

/// Errors of document parsing.
#[derive(Debug, Clone, PartialEq)]
pub enum ParseError {
    Frontmatter(FrontmatterError),
    Parse { line: usize, message: String },
}

pub open spec fn alnum_p() -> spec_fn(char) -> bool {
    |c: char| alnum(c)
}

/// The runs of alphanumeric characters of `t`, joined by single hyphens.
pub open spec fn slug(t: Seq<char>) -> Seq<char> {
    collapse(t, t.len() as int, alnum_p(), '-')
}

/// The slug of an already lower-cased text.
pub fn slugify_lowered(text: &str) -> (r: String)
    ensures
        r@ == slug(text@),
{
    let t = chars_of(text);
    let mut out = String::new();
    let mut some = false;
    let mut i: usize = 0;
    while i < t.len()
        invariant
            0 <= i <= t@.len(),
            t@ == text@,
            out@ == collapse(t@, i as int, alnum_p(), '-'),
            some == (out@.len() > 0),
            i == 0 ==> !some,
        decreases t@.len() - i,
    {
        let c = t[i];
        let keep = is_alnum(c);
        if !keep {
        } else if some && !is_alnum(t[i - 1]) {
            push_char(&mut out, '-');
            push_char(&mut out, c);
        } else {
            push_char(&mut out, c);
        }
        some = some || keep;
        i += 1;
        assert(out@ =~= collapse(t@, i as int, alnum_p(), '-'));
    }
    out
}

/// Convert a heading to an anchor: lower case, runs of alphanumeric
/// characters joined by single hyphens.
pub fn slugify(text: &str) -> (r: String)
    ensures
        r@ == slug(lower_of(text@)),
{
    let lowered = to_lower(text);
    slugify_lowered(lowered.as_str())
}

/// A slug: alphanumeric characters, single hyphens between them.
pub open spec fn is_slug(s: Seq<char>) -> bool {
    forall|i: int|
        0 <= i < s.len() ==> alnum(#[trigger] s[i]) || (s[i] == '-' && 0 < i < s.len() - 1
            && alnum(s[i - 1]) && alnum(s[i + 1]))
}

proof fn lemma_collapse_is_slug(t: Seq<char>, n: int)
    requires
        0 <= n <= t.len(),
    ensures
        is_slug(collapse(t, n, alnum_p(), '-')),
        collapse(t, n, alnum_p(), '-').len() > 0 ==> alnum(collapse(t, n, alnum_p(), '-').last()),
    decreases n,
{
    if n > 0 {
        lemma_collapse_is_slug(t, n - 1);
        let prev = collapse(t, n - 1, alnum_p(), '-');
        let cur = collapse(t, n, alnum_p(), '-');
        assert forall|i: int| 0 <= i < cur.len() implies alnum(#[trigger] cur[i]) || (cur[i] == '-'
            && 0 < i < cur.len() - 1 && alnum(cur[i - 1]) && alnum(cur[i + 1])) by {
            if i < prev.len() {
                assert(cur[i] == prev[i]);
                if i > 0 {
                    assert(cur[i - 1] == prev[i - 1]);
                }
                if i + 1 < prev.len() {
                    assert(cur[i + 1] == prev[i + 1]);
                }
            }
        }
    }
}

proof fn lemma_slug_prefix(s: Seq<char>, k: int)
    requires
        is_slug(s),
        0 <= k <= s.len(),
    ensures
        collapse(s, k, alnum_p(), '-') == if k > 0 && !alnum(s[k - 1]) {
            s.subrange(0, k - 1)
        } else {
            s.subrange(0, k)
        },
    decreases k,
{
    if k > 0 {
        lemma_slug_prefix(s, k - 1);
        let c = s[k - 1];
        if alnum(c) {
            if k >= 2 && !alnum(s[k - 2]) {
                assert(s[k - 2] == '-');
                assert(s.subrange(0, k - 2).push('-').push(c) =~= s.subrange(0, k));
            } else {
                assert(s.subrange(0, k - 1).push(c) =~= s.subrange(0, k));
            }
        } else {
            assert(alnum(s[k - 2]));
        }
    } else {
        assert(s.subrange(0, 0) =~= Seq::<char>::empty());
    }
}

/// Slugs are idempotent: the slug of a slug is itself.
pub proof fn lemma_slug_idempotent(t: Seq<char>)
    ensures
        slug(slug(t)) == slug(t),
{
    let s = slug(t);
    lemma_collapse_is_slug(t, t.len() as int);
    lemma_slug_prefix(s, s.len() as int);
    if s.len() > 0 {
        assert(alnum(s[s.len() - 1]));
    }
    assert(s.subrange(0, s.len() as int) =~= s);
}

/// Slugifying a slug gives it back, for texts whose lower-casing leaves
/// their slug unchanged.
pub proof fn lemma_slugify_idempotent(text: Seq<char>)
    requires
        lower_of(slug(lower_of(text))) == slug(lower_of(text)),
    ensures
        slug(lower_of(slug(lower_of(text)))) == slug(lower_of(text)),
{
    lemma_slug_idempotent(lower_of(text));
}

/// One event of a Markdown walk.
#[derive(Debug, Clone, PartialEq)]
pub enum MdEvent {
    /// Start of a code block, with the fence's info string (`None` for an
    /// indented block).
    CodeStart(Option<String>),
    CodeEnd,
    /// Start of a heading of the given level.
    HeadingStart(u8),
    HeadingEnd,
    /// Text.
    Text(String),
    /// A soft or hard line break.
    LineBreak,
    /// Anything else.
    Other,
}

pub enum EventV {
    CodeStart(Option<Seq<char>>),
    CodeEnd,
    HeadingStart(u8),
    HeadingEnd,
    Text(Seq<char>),
    LineBreak,
    Other,
}

impl View for MdEvent {
    type V = EventV;

    open spec fn view(&self) -> EventV {
        match self {
            MdEvent::CodeStart(i) => EventV::CodeStart(opt_view(*i)),
            MdEvent::CodeEnd => EventV::CodeEnd,
            MdEvent::HeadingStart(l) => EventV::HeadingStart(*l),
            MdEvent::HeadingEnd => EventV::HeadingEnd,
            MdEvent::Text(t) => EventV::Text(t@),
            MdEvent::LineBreak => EventV::LineBreak,
            MdEvent::Other => EventV::Other,
        }
    }
}

pub open spec fn events_view(e: Seq<MdEvent>) -> Seq<EventV> {
    Seq::new(e.len(), |i: int| e[i]@)
}

/// The events of a CommonMark walk (tables, footnotes, strike-through and
/// task lists on) of a text.
pub uninterp spec fn markdown_events_of(s: Seq<char>) -> Seq<EventV>;

/// Relies on `pulldown_cmark::Parser::new_ext`: the event stream of the
/// text, each event mapped to the variant of the same kind.
#[verifier::external_body]
fn markdown_events(content: &str) -> (r: Vec<MdEvent>)
    ensures
        events_view(r@) == markdown_events_of(content@),
{
    let opts = O::ENABLE_TABLES | O::ENABLE_FOOTNOTES | O::ENABLE_STRIKETHROUGH | O::ENABLE_TASKLISTS;
    pulldown_cmark::Parser::new_ext(content, opts).map(|ev| match ev {
        E::Start(Tag::CodeBlock(K::Fenced(i))) => MdEvent::CodeStart(Some(i.to_string())),
        E::Start(Tag::CodeBlock(K::Indented)) => MdEvent::CodeStart(None),
        E::End(TagEnd::CodeBlock) => MdEvent::CodeEnd,
        E::Start(Tag::Heading { level, .. }) => MdEvent::HeadingStart(level as u8),
        E::End(TagEnd::Heading(_)) => MdEvent::HeadingEnd,
        E::Text(t) => MdEvent::Text(t.to_string()),
        E::SoftBreak | E::HardBreak => MdEvent::LineBreak,
        _ => MdEvent::Other,
    }).collect()
}

/// What a code block holds.
pub struct BlockV {
    pub id: Seq<char>,
    pub language: Language,
    pub mode: BlockMode,
    pub source: Seq<char>,
    pub line_number: nat,
    pub filename: Option<Seq<char>>,
}

pub open spec fn block_view(b: CodeBlock) -> BlockV {
    BlockV {
        id: b.id@,
        language: b.language,
        mode: b.mode,
        source: b.source@,
        line_number: b.line_number as nat,
        filename: opt_view(b.filename),
    }
}

pub struct TocV {
    pub title: Seq<char>,
    pub id: Seq<char>,
    pub level: u8,
}

/// The code block a fence with info `info` and text `src` makes on `line`.
pub open spec fn block_of(info: Seq<char>, src: Seq<char>, line: nat) -> BlockV {
    BlockV {
        id: block_id(line),
        language: language_of(first_token(info)),
        mode: mode_of(info),
        source: src,
        line_number: line,
        filename: filename_of(info),
    }
}

/// State of the walk.
pub struct WalkV {
    pub blocks: Seq<BlockV>,
    pub toc: Seq<TocV>,
    /// Inside a code block: its info string and starting line.
    pub code: Option<(Seq<char>, nat)>,
    /// Inside a heading: its level and text so far.
    pub heading: Option<(u8, Seq<char>)>,
    /// Current line of the body, from 1.
    pub line: nat,
}

/// `a + b`, capped at the largest `usize`.
pub open spec fn sat_add(a: nat, b: nat) -> nat {
    if a + b > usize::MAX {
        usize::MAX as nat
    } else {
        a + b
    }
}

/// Number of new lines in `t`.
pub open spec fn newlines(t: Seq<char>) -> nat
    decreases t.len(),
{
    if t.len() == 0 {
        0
    } else {
        newlines(t.drop_last()) + if t.last() == '\n' {
            1nat
        } else {
            0nat
        }
    }
}

/// One step of the walk; code blocks start on the current line plus `offset`.
pub open spec fn step(w: WalkV, e: EventV, offset: nat) -> WalkV {
    match e {
        EventV::CodeStart(info) => WalkV {
            code: Some(
                (
                    match info {
                        Some(i) => i,
                        None => Seq::empty(),
                    },
                    sat_add(w.line, offset),
                ),
            ),
            ..w
        },
        EventV::Text(t) => {
            let w2 = match w.code {
                Some(c) => WalkV { blocks: w.blocks.push(block_of(c.0, t, c.1)), ..w },
                None => match w.heading {
                    Some(h) => WalkV { heading: Some((h.0, h.1 + t)), ..w },
                    None => w,
                },
            };
            WalkV { line: sat_add(w.line, newlines(t)), ..w2 }
        },
        EventV::CodeEnd => WalkV { code: None, ..w },
        EventV::HeadingStart(l) => WalkV { heading: Some((l, Seq::empty())), ..w },
        EventV::HeadingEnd => match w.heading {
            Some(h) => WalkV {
                toc: w.toc.push(TocV { title: h.1, id: slug(lower_of(h.1)), level: h.0 }),
                heading: None,
                ..w
            },
            None => w,
        },
        EventV::LineBreak => WalkV { line: sat_add(w.line, 1), ..w },
        EventV::Other => w,
    }
}

/// The walk over the first `n` events.
pub open spec fn walk(events: Seq<EventV>, n: int, offset: nat) -> WalkV
    decreases n,
{
    if n <= 0 {
        WalkV { blocks: Seq::empty(), toc: Seq::empty(), code: None, heading: None, line: 1 }
    } else {
        step(walk(events, n - 1, offset), events[n - 1], offset)
    }
}

/// Number of lines `str::lines` yields for `p`.
pub open spec fn line_count(p: Seq<char>) -> nat {
    newlines(p) + if p.len() > 0 && p.last() != '\n' {
        1nat
    } else {
        0nat
    }
}

fn count_newlines(t: &str) -> (r: usize)
    ensures
        r == newlines(t@),
{
    let v = chars_of(t);
    let mut c: usize = 0;
    let mut i: usize = 0;
    while i < v.len()
        invariant
            0 <= i <= v@.len(),
            v@ == t@,
            c == newlines(v@.subrange(0, i as int)),
            c <= i,
        decreases v@.len() - i,
    {
        assert(v@.subrange(0, i + 1).drop_last() =~= v@.subrange(0, i as int));
        if v[i] == '\n' {
            c += 1;
        }
        i += 1;
    }
    assert(v@.subrange(0, v@.len() as int) =~= v@);
    c
}

fn sat_add_exec(a: usize, b: usize) -> (r: usize)
    ensures
        r == sat_add(a as nat, b as nat),
{
    if a > usize::MAX - b {
        usize::MAX
    } else {
        a + b
    }
}

/// Walk the events of a body: collect its code blocks and headings.
pub fn collect_document(events: &Vec<MdEvent>, offset: usize) -> (r: (Vec<CodeBlock>, Vec<TocEntry>))
    ensures
        Seq::new(r.0@.len(), |i: int| block_view(r.0@[i])) == walk(
            events_view(events@),
            events@.len() as int,
            offset as nat,
        ).blocks,
        Seq::new(r.1@.len(), |i: int| toc_view(r.1@[i])) == walk(
            events_view(events@),
            events@.len() as int,
            offset as nat,
        ).toc,
{
    let ghost ev = events_view(events@);
    let mut blocks: Vec<CodeBlock> = Vec::new();
    let mut toc: Vec<TocEntry> = Vec::new();
    let mut code: Option<(String, usize)> = None;
    let mut heading: Option<(u8, String)> = None;
    let mut line: usize = 1;
    let mut i: usize = 0;
    while i < events.len()
        invariant
            0 <= i <= events@.len(),
            ev == events_view(events@),
            ({
                let w = walk(ev, i as int, offset as nat);
                &&& Seq::new(blocks@.len(), |j: int| block_view(blocks@[j])) == w.blocks
                &&& Seq::new(toc@.len(), |j: int| toc_view(toc@[j])) == w.toc
                &&& line as nat == w.line
                &&& match code {
                    Some(c) => w.code == Some((c.0@, c.1 as nat)),
                    None => w.code is None,
                }
                &&& match heading {
                    Some(h) => w.heading == Some((h.0, h.1@)),
                    None => w.heading is None,
                }
            }),
        decreases events@.len() - i,
    {
        let ghost w0 = walk(ev, i as int, offset as nat);
        let ghost bs0 = blocks@;
        let ghost ts0 = toc@;
        assert(ev[i as int] == events@[i as int]@);
        match &events[i] {
            MdEvent::CodeStart(info) => {
                let text = match info {
                    Some(s) => s.clone(),
                    None => String::new(),
                };
                code = Some((text, sat_add_exec(line, offset)));
            },
            MdEvent::Text(t) => {
                match &code {
                    Some(c) => {
                        let info = c.0.as_str();
                        let mut block = CodeBlock::new(
                            Language::from_info(info),
                            BlockMode::from_info(info),
                            t.clone(),
                            c.1,
                        );
                        block.filename = extract_filename(info);
                        blocks.push(block);
                        assert(Seq::new(blocks@.len(), |j: int| block_view(blocks@[j])) =~= w0.blocks.push(
                            block_of(c.0@, t@, c.1 as nat),
                        )) by {
                            assert(blocks@.drop_last() == bs0);
                        }
                    },
                    None => {
                        let cur = heading;
                        heading = match cur {
                            Some((l, h)) => {
                                let mut h = h;
                                push_str(&mut h, t.as_str());
                                Some((l, h))
                            },
                            None => None,
                        };
                    },
                }
                line = sat_add_exec(line, count_newlines(t.as_str()));
            },
            MdEvent::CodeEnd => {
                code = None;
            },
            MdEvent::HeadingStart(l) => {
                heading = Some((*l, String::new()));
            },
            MdEvent::HeadingEnd => {
                match heading {
                    Some((level, title)) => {
                        let id = slugify(title.as_str());
                        let ghost hd = w0.heading->0;
                        toc.push(TocEntry { title, id, level });
                        assert(Seq::new(toc@.len(), |j: int| toc_view(toc@[j])) =~= w0.toc.push(
                            TocV { title: hd.1, id: slug(lower_of(hd.1)), level: hd.0 },
                        )) by {
                            assert(toc@.drop_last() == ts0);
                        }
                    },
                    None => {},
                }
                heading = None;
            },
            MdEvent::LineBreak => {
                line = sat_add_exec(line, 1);
            },
            MdEvent::Other => {},
        }
        i += 1;
    }
    (blocks, toc)
}

pub open spec fn toc_view(t: TocEntry) -> TocV {
    TocV { title: t.title@, id: t.id@, level: t.level }
}

/// Parse a document's body: `source` is the whole file and `body` what
/// follows its header, whose lines are added to the code blocks' line
/// numbers.
pub fn parse_markdown(source: &str, body: &str, frontmatter: Option<Frontmatter>) -> (r: ParsedDoc)
    requires
        body@.len() <= source@.len(),
    ensures
        r.content@ == body@,
        r.frontmatter == frontmatter,
        ({
            let offset = line_count(source@.subrange(0, source@.len() - body@.len()));
            let w = walk(markdown_events_of(body@), markdown_events_of(body@).len() as int, offset);
            &&& Seq::new(r.code_blocks@.len(), |i: int| block_view(r.code_blocks@[i])) == w.blocks
            &&& Seq::new(r.toc@.len(), |i: int| toc_view(r.toc@[i])) == w.toc
        }),
{
    let v = chars_of(source);
    let head = v.len() - chars_of(body).len();
    let mut nl: usize = 0;
    let mut i: usize = 0;
    while i < head
        invariant
            0 <= i <= head <= v@.len(),
            v@ == source@,
            nl == newlines(v@.subrange(0, i as int)),
            nl <= i,
            i > 0 && v@[i - 1] != '\n' ==> nl < i,
        decreases head - i,
    {
        assert(v@.subrange(0, i + 1).drop_last() =~= v@.subrange(0, i as int));
        if v[i] == '\n' {
            nl += 1;
        }
        i += 1;
    }
    let offset = if head > 0 && v[head - 1] != '\n' {
        nl + 1
    } else {
        nl
    };
    let events = markdown_events(body);
    let (code_blocks, toc) = collect_document(&events, offset);
    ParsedDoc { frontmatter, content: string_copy(body), code_blocks, toc }
}

fn string_copy(s: &str) -> (r: String)
    ensures
        r@ == s@,
{
    let v = chars_of(s);
    assert(v@.subrange(0, v@.len() as int) =~= v@);
    crate::text::string_from(&v, 0, v.len())
}

} // verus!
