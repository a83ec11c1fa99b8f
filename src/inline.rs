//! Parser for one inline usage example, such as
//! `<Button variant="default">Click me</Button>`, and its rendering as a
//! custom element.
use vstd::prelude::*;

use crate::text::{ascii_alnum, at, at_exec, chars_of, is_ascii_alnum, is_letter, is_upper, lemma_scan, letter, not_char, push_char, push_range, push_str, scan, scan_until, scan_ws, string_from, trim_range, trimmed, upper, wsp};

verus! {

/// A prop value of a usage example.
#[derive(Debug, Clone, PartialEq)]
pub enum PropValue {
    /// A quoted literal: `variant="default"`.
    String(String),
    /// A bare name: `disabled`.
    Boolean(bool),
    /// A braced expression, kept as text and never evaluated: `data={x}`.
    Expression(String),
}

/// What a prop value holds.
pub enum PropV {
    Str(Seq<char>),
    Bool(bool),
    Expr(Seq<char>),
}

impl View for PropValue {
    type V = PropV;

    open spec fn view(&self) -> PropV {
        match self {
            PropValue::String(s) => PropV::Str(s@),
            PropValue::Boolean(b) => PropV::Bool(*b),
            PropValue::Expression(e) => PropV::Expr(e@),
        }
    }
}

impl PropValue {
    /// The text of a string value.
    pub fn as_str(&self) -> (r: Option<&str>)
        ensures
            match self {
                PropValue::String(s) => r matches Some(t) && t@ == s@,
                _ => r is None,
            },
    {
        match self {
            PropValue::String(s) => Some(s.as_str()),
            _ => None,
        }
    }
}

/// Props in the order their names first appear; names are unique.
#[derive(Debug, Clone, PartialEq)]
pub struct Props {
    entries: Vec<(String, PropValue)>,
}

pub type PropSeq = Seq<(Seq<char>, PropV)>;

impl View for Props {
    type V = PropSeq;

    closed spec fn view(&self) -> PropSeq {
        Seq::new(self.entries@.len(), |i: int| (self.entries@[i].0@, self.entries@[i].1@))
    }
}

/// Position of the entry named `k`, or -1.
pub open spec fn key_index(m: PropSeq, k: Seq<char>) -> int
    decreases m.len(),
{
    if m.len() == 0 {
        -1
    } else if m.last().0 == k {
        m.len() - 1
    } else {
        key_index(m.drop_last(), k)
    }
}

/// `m` with `k` set to `v`: an existing entry keeps its place.
pub open spec fn put(m: PropSeq, k: Seq<char>, v: PropV) -> PropSeq {
    let j = key_index(m, k);
    if j >= 0 {
        m.update(j, (k, v))
    } else {
        m.push((k, v))
    }
}

/// `m` maps `k` to `v`.
pub open spec fn lookup(m: PropSeq, k: Seq<char>) -> Option<PropV> {
    let j = key_index(m, k);
    if j >= 0 {
        Some(m[j].1)
    } else {
        None
    }
}

impl Props {
    pub fn new() -> (r: Props)
        ensures
            r@ == Seq::<(Seq<char>, PropV)>::empty(),
    {
        Props { entries: Vec::new() }
    }

    pub fn len(&self) -> (r: usize)
        ensures
            r == self@.len(),
    {
        self.entries.len()
    }

    fn find(&self, name: &str) -> (r: Option<usize>)
        ensures
            r matches Some(j) ==> key_index(self@, name@) == j && j < self@.len(),
            r is None ==> key_index(self@, name@) == -1,
    {
        let mut i = self.entries.len();
        assert(self@.subrange(0, i as int) =~= self@);
        while i > 0
            invariant
                i <= self@.len(),
                key_index(self@.subrange(0, i as int), name@) == key_index(self@, name@),
            decreases i,
        {
            let ghost pre = self@.subrange(0, i as int);
            assert(pre.last() == self@[i - 1]);
            if crate::text::str_eq(self.entries[i - 1].0.as_str(), name) {
                return Some(i - 1);
            }
            assert(pre.drop_last() =~= self@.subrange(0, i - 1));
            i -= 1;
        }
        assert(self@.subrange(0, 0) =~= Seq::<(Seq<char>, PropV)>::empty());
        None
    }

    /// The value of the prop named `name`.
    pub fn get(&self, name: &str) -> (r: Option<&PropValue>)
        ensures
            r matches Some(v) ==> lookup(self@, name@) == Some(v@),
            r is None ==> lookup(self@, name@) is None,
    {
        match self.find(name) {
            Some(j) => Some(&self.entries[j].1),
            None => None,
        }
    }

    /// Sets `name` to `value`; a name already present keeps its place.
    pub fn insert(&mut self, name: String, value: PropValue)
        ensures
            final(self)@ == put(old(self)@, name@, value@),
    {
        let ghost nv = name@;
        let ghost vv = value@;
        match self.find(name.as_str()) {
            Some(j) => {
                self.entries.set(j, (name, value));
                assert(self@ =~= put(old(self)@, nv, vv));
            },
            None => {
                self.entries.push((name, value));
                assert(self@ =~= put(old(self)@, nv, vv));
            },
        }
    }

    /// The entry at `i`, in order of first appearance.
    pub fn entry(&self, i: usize) -> (r: (&String, &PropValue))
        requires
            i < self@.len(),
        ensures
            r.0@ == self@[i as int].0,
            r.1@ == self@[i as int].1,
    {
        (&self.entries[i].0, &self.entries[i].1)
    }
}

/// A parsed usage example.
#[derive(Debug, Clone, PartialEq)]
pub struct InlineJsx {
    /// Component name, starting with an upper-case letter.
    pub component: String,
    pub props: Props,
    /// Text between the open and close tags, trimmed; `None` when empty.
    pub children: Option<String>,
    pub self_closing: bool,
}

pub struct JsxV {
    pub component: Seq<char>,
    pub props: PropSeq,
    pub children: Option<Seq<char>>,
    pub self_closing: bool,
}

pub open spec fn opt_view(o: Option<String>) -> Option<Seq<char>> {
    match o {
        Some(s) => Some(s@),
        None => None,
    }
}

impl View for InlineJsx {
    type V = JsxV;

    open spec fn view(&self) -> JsxV {
        JsxV {
            component: self.component@,
            props: self.props@,
            children: opt_view(self.children),
            self_closing: self.self_closing,
        }
    }
}

pub open spec fn ascii_alnum_p() -> spec_fn(char) -> bool {
    |c: char| is_ascii_alnum(c)
}

/// The prop that starts at `i` (a letter) in `s[..hi]`: its end, name and
/// value. A name followed by `= "..."`, `= '...'` or `= {...}` takes that
/// value; otherwise it is a boolean `true`.
pub open spec fn prop_at(s: Seq<char>, i: int, hi: int) -> (int, Seq<char>, PropV) {
    let ne = scan(s, i + 1, hi, ascii_alnum_p());
    let name = s.subrange(i, ne);
    let j = scan(s, ne, hi, wsp());
    let k = scan(s, j + 1, hi, wsp());
    let bare = (ne, name, PropV::Bool(true));
    if j < hi && s[j] == '=' && k < hi {
        if s[k] == '"' {
            let e = scan(s, k + 1, hi, not_char('"'));
            if e < hi {
                (e + 1, name, PropV::Str(s.subrange(k + 1, e)))
            } else {
                bare
            }
        } else if s[k] == '\'' {
            let e = scan(s, k + 1, hi, not_char('\''));
            if e < hi {
                (e + 1, name, PropV::Str(s.subrange(k + 1, e)))
            } else {
                bare
            }
        } else if s[k] == '{' {
            let e = scan(s, k + 1, hi, not_char('}'));
            if e < hi {
                (e + 1, name, PropV::Expr(s.subrange(k + 1, e)))
            } else {
                bare
            }
        } else {
            bare
        }
    } else {
        bare
    }
}

/// The props of `s[i..hi]`, added to `m`: each prop starts at the first
/// letter after the previous one ends, and a later value of a name replaces
/// an earlier one.
pub open spec fn props_from(s: Seq<char>, i: int, hi: int, m: PropSeq) -> PropSeq
    decreases hi - i,
{
    if i < 0 || i >= hi || hi > s.len() {
        m
    } else if is_letter(s[i]) {
        let p = prop_at(s, i, hi);
        if i < p.0 <= hi {
            props_from(s, p.0, hi, put(m, p.1, p.2))
        } else {
            m
        }
    } else {
        props_from(s, i + 1, hi, m)
    }
}

proof fn lemma_prop_at_end(s: Seq<char>, i: int, hi: int)
    requires
        0 <= i < hi <= s.len(),
    ensures
        i < prop_at(s, i, hi).0 <= hi,
{
    let ne = scan(s, i + 1, hi, ascii_alnum_p());
    lemma_scan(s, i + 1, hi, ascii_alnum_p());
    let j = scan(s, ne, hi, wsp());
    lemma_scan(s, ne, hi, wsp());
    if j < hi {
        let k = scan(s, j + 1, hi, wsp());
        lemma_scan(s, j + 1, hi, wsp());
        if k < hi {
            lemma_scan(s, k + 1, hi, not_char('"'));
            lemma_scan(s, k + 1, hi, not_char('\''));
            lemma_scan(s, k + 1, hi, not_char('}'));
        }
    }
}

/// End of the run of `[a-zA-Z0-9]` starting at `from`.
pub fn alnum_end(v: &Vec<char>, from: usize, hi: usize) -> (r: usize)
    requires
        from <= hi <= v@.len(),
    ensures
        r == scan(v@, from as int, hi as int, ascii_alnum_p()),
        from <= r <= hi,
{
    proof {
        lemma_scan(v@, from as int, hi as int, ascii_alnum_p());
    }
    let mut j = from;
    while j < hi && ascii_alnum(v[j])
        invariant
            from <= j <= hi <= v@.len(),
            scan(v@, j as int, hi as int, ascii_alnum_p()) == scan(
                v@,
                from as int,
                hi as int,
                ascii_alnum_p(),
            ),
        decreases hi - j,
    {
        j += 1;
    }
    j
}

fn parse_prop(v: &Vec<char>, i: usize, hi: usize) -> (r: (usize, String, PropValue))
    requires
        i < hi <= v@.len(),
    ensures
        r.0 == prop_at(v@, i as int, hi as int).0,
        r.1@ == prop_at(v@, i as int, hi as int).1,
        r.2@ == prop_at(v@, i as int, hi as int).2,
{
    let ne = alnum_end(v, i + 1, hi);
    let name = string_from(v, i, ne);
    let j = scan_ws(v, ne, hi);
    if j < hi && v[j] == '=' {
        let k = scan_ws(v, j + 1, hi);
        if k < hi {
            if v[k] == '"' {
                let e = scan_until(v, k + 1, hi, '"');
                if e < hi {
                    return (e + 1, name, PropValue::String(string_from(v, k + 1, e)));
                }
            } else if v[k] == '\'' {
                let e = scan_until(v, k + 1, hi, '\'');
                if e < hi {
                    return (e + 1, name, PropValue::String(string_from(v, k + 1, e)));
                }
            } else if v[k] == '{' {
                let e = scan_until(v, k + 1, hi, '}');
                if e < hi {
                    return (e + 1, name, PropValue::Expression(string_from(v, k + 1, e)));
                }
            }
        }
    }
    (ne, name, PropValue::Boolean(true))
}

/// Parse the props of `v[lo..hi]`.
pub fn parse_props(v: &Vec<char>, lo: usize, hi: usize) -> (r: Props)
    requires
        lo <= hi <= v@.len(),
    ensures
        r@ == props_from(v@, lo as int, hi as int, Seq::empty()),
{
    let mut props = Props::new();
    let mut i = lo;
    while i < hi
        invariant
            lo <= i <= hi <= v@.len(),
            props_from(v@, i as int, hi as int, props@) == props_from(
                v@,
                lo as int,
                hi as int,
                Seq::empty(),
            ),
        decreases hi - i,
    {
        if letter(v[i]) {
            proof {
                lemma_prop_at_end(v@, i as int, hi as int);
            }
            let (e, name, value) = parse_prop(v, i, hi);
            props.insert(name, value);
            i = e;
        } else {
            i += 1;
        }
    }
    props
}

/// The name of the tag that opens `s`: `<` and an upper-case letter, then
/// letters and digits. Returns the end of the name, or -1.
pub open spec fn tag_name_end(s: Seq<char>) -> int {
    if s.len() >= 2 && s[0] == '<' && is_upper(s[1]) {
        scan(s, 2, s.len() as int, ascii_alnum_p())
    } else {
        -1
    }
}

/// First index at or after `from` holding `/` or `>`, or `s.len()`.
pub open spec fn slash_or_gt(s: Seq<char>, from: int) -> int {
    scan(s, from, s.len() as int, attr_char_p())
}

pub open spec fn attr_char_p() -> spec_fn(char) -> bool {
    |c: char| c != '/' && c != '>'
}

/// `<Name ... />`, where the attributes hold no `/` or `>`.
pub open spec fn self_closing_of(s: Seq<char>) -> Option<JsxV> {
    let ne = tag_name_end(s);
    if ne < 0 {
        None
    } else {
        let q = slash_or_gt(s, ne);
        if q + 1 < s.len() && s[q] == '/' && s[q + 1] == '>' {
            Some(
                JsxV {
                    component: s.subrange(1, ne),
                    props: props_from(s, ne, q, Seq::empty()),
                    children: None,
                    self_closing: true,
                },
            )
        } else {
            None
        }
    }
}

/// `<` followed by the component name.
pub open spec fn open_pat(name: Seq<char>) -> Seq<char> {
    seq!['<'] + name
}

/// `</` followed by the component name and `>`.
pub open spec fn close_pat(name: Seq<char>) -> Seq<char> {
    seq!['<', '/'] + name + seq!['>']
}

/// A tag of the same name opens at `i`: `<Name` followed by `>`, a new
/// line, or a space that does not begin ` />`.
pub open spec fn opens_at(s: Seq<char>, i: int, name: Seq<char>) -> bool {
    let a = i + name.len() + 1;
    at(s, i, open_pat(name)) && a < s.len() && (s[a] == '>' || s[a] == '\n' || (s[a] == ' '
        && !at(s, a, seq![' ', '/', '>'])))
}

/// Position of the close tag that brings the nesting depth `d` (counted
/// from `i`) down to zero: open tags of the same name add one, close tags
/// take one away.
pub open spec fn close_from(s: Seq<char>, name: Seq<char>, i: int, d: int) -> Option<int>
    decreases s.len() - i,
{
    if i < 0 || i >= s.len() {
        None
    } else if at(s, i, close_pat(name)) {
        if d <= 1 {
            Some(i)
        } else {
            close_from(s, name, i + 1, d - 1)
        }
    } else if opens_at(s, i, name) {
        close_from(s, name, i + 1, d + 1)
    } else {
        close_from(s, name, i + 1, d)
    }
}

proof fn lemma_close_from(s: Seq<char>, name: Seq<char>, i: int, d: int)
    requires
        0 <= i,
    ensures
        close_from(s, name, i, d) matches Some(c) ==> i <= c < s.len(),
    decreases s.len() - i,
{
    if i < s.len() {
        lemma_close_from(s, name, i + 1, d - 1);
        lemma_close_from(s, name, i + 1, d + 1);
        lemma_close_from(s, name, i + 1, d);
    }
}

/// Find the close tag matching an open tag of `name` whose text ends at
/// `start`, skipping nested tags of the same name.
pub fn find_matching_close_tag(v: &Vec<char>, name: &Vec<char>, start: usize) -> (r: Option<
    usize,
>)
    requires
        start <= v@.len(),
    ensures
        r matches Some(c) ==> close_from(v@, name@, start as int, 1) == Some(c as int),
        r is None ==> close_from(v@, name@, start as int, 1) is None,
{
    let mut open = String::new();
    push_char(&mut open, '<');
    push_range(&mut open, name, 0, name.len());
    let mut close = String::new();
    push_str(&mut close, "</");
    push_range(&mut close, name, 0, name.len());
    push_char(&mut close, '>');
    assert(open@ =~= open_pat(name@));
    proof {
        reveal_strlit("</");
    }
    assert(close@ =~= close_pat(name@));
    let mut depth: usize = 1;
    let mut i = start;
    while i < v.len()
        invariant
            start <= i <= v@.len(),
            1 <= depth <= i - start + 1,
            open@ == open_pat(name@),
            close@ == close_pat(name@),
            close_from(v@, name@, i as int, depth as int) == close_from(
                v@,
                name@,
                start as int,
                1,
            ),
        decreases v@.len() - i,
    {
        if at_exec(v, i, close.as_str()) {
            if depth <= 1 {
                return Some(i);
            }
            depth -= 1;
        } else if at_exec(v, i, open.as_str()) && name.len() + 1 < v.len() - i {
            let a = i + name.len() + 1;
            let c = v[a];
            if c == '>' || c == '\n' || (c == ' ' && !at_exec(v, a, " />")) {
                proof {
                    reveal_strlit(" />");
                }
                assert(" />"@ =~= seq![' ', '/', '>']);
                depth += 1;
            } else {
                proof {
                    reveal_strlit(" />");
                }
                assert(" />"@ =~= seq![' ', '/', '>']);
            }
        }
        i += 1;
    }
    None
}

/// `<Name ...>children</Name>`, where the open tag ends at the first `>`.
pub open spec fn with_children_of(s: Seq<char>) -> Option<JsxV> {
    let ne = tag_name_end(s);
    if ne < 0 {
        None
    } else {
        let gt = scan(s, ne, s.len() as int, not_char('>'));
        if gt >= s.len() {
            None
        } else {
            let name = s.subrange(1, ne);
            match close_from(s, name, gt + 1, 1) {
                Some(c) => {
                    let ch = trimmed(s, gt + 1, c);
                    Some(
                        JsxV {
                            component: name,
                            props: props_from(s, ne, gt, Seq::empty()),
                            children: if ch.len() == 0 {
                                None
                            } else {
                                Some(ch)
                            },
                            self_closing: false,
                        },
                    )
                },
                None => None,
            }
        }
    }
}

/// The usage example that `source`, trimmed, consists of: self-closing
/// form first, then the form with children.
pub open spec fn inline_of(source: Seq<char>) -> Option<JsxV> {
    let s = trimmed(source, 0, source.len() as int);
    if self_closing_of(s) is Some {
        self_closing_of(s)
    } else {
        with_children_of(s)
    }
}

fn tag_name_end_exec(v: &Vec<char>) -> (r: Option<usize>)
    ensures
        r matches Some(e) ==> tag_name_end(v@) == e as int && 2 <= e <= v@.len(),
        r is None ==> tag_name_end(v@) < 0,
{
    if v.len() >= 2 && v[0] == '<' && upper(v[1]) {
        Some(alnum_end(v, 2, v.len()))
    } else {
        None
    }
}

fn parse_self_closing(v: &Vec<char>) -> (r: Option<InlineJsx>)
    ensures
        r matches Some(j) ==> self_closing_of(v@) == Some(j@),
        r is None ==> self_closing_of(v@) is None,
{
    let ne = match tag_name_end_exec(v) {
        Some(e) => e,
        None => {
            return None;
        },
    };
    let n = v.len();
    proof {
        lemma_scan(v@, ne as int, n as int, attr_char_p());
    }
    let mut q = ne;
    while q < n && v[q] != '/' && v[q] != '>'
        invariant
            ne <= q <= n == v@.len(),
            scan(v@, q as int, n as int, attr_char_p()) == scan(
                v@,
                ne as int,
                n as int,
                attr_char_p(),
            ),
        decreases n - q,
    {
        q += 1;
    }
    assert(q == slash_or_gt(v@, ne as int));
    if q < n && q + 1 < n && v[q] == '/' && v[q + 1] == '>' {
        let component = string_from(v, 1, ne);
        let props = parse_props(v, ne, q);
        Some(InlineJsx { component, props, children: None, self_closing: true })
    } else {
        None
    }
}

fn parse_with_children(v: &Vec<char>) -> (r: Option<InlineJsx>)
    ensures
        r matches Some(j) ==> with_children_of(v@) == Some(j@),
        r is None ==> with_children_of(v@) is None,
{
    let ne = match tag_name_end_exec(v) {
        Some(e) => e,
        None => {
            return None;
        },
    };
    let n = v.len();
    proof {
        lemma_scan(v@, ne as int, n as int, not_char('>'));
    }
    let mut gt = ne;
    while gt < n && v[gt] != '>'
        invariant
            ne <= gt <= n == v@.len(),
            scan(v@, gt as int, n as int, not_char('>')) == scan(
                v@,
                ne as int,
                n as int,
                not_char('>'),
            ),
        decreases n - gt,
    {
        gt += 1;
    }
    if gt >= n {
        return None;
    }
    let mut name_v: Vec<char> = Vec::new();
    let mut k: usize = 1;
    while k < ne
        invariant
            1 <= k <= ne <= n == v@.len(),
            name_v@ == v@.subrange(1, k as int),
        decreases ne - k,
    {
        name_v.push(v[k]);
        k += 1;
        assert(name_v@ =~= v@.subrange(1, k as int));
    }
    let close = match find_matching_close_tag(v, &name_v, gt + 1) {
        Some(c) => c,
        None => {
            return None;
        },
    };
    proof {
        lemma_close_from(v@, name_v@, gt + 1, 1);
    }
    let (a, b) = trim_range(v, gt + 1, close);
    let children = if a == b {
        None
    } else {
        Some(string_from(v, a, b))
    };
    let component = string_from(v, 1, ne);
    let props = parse_props(v, ne, gt);
    Some(InlineJsx { component, props, children, self_closing: false })
}

/// Parse a usage example; `None` when it has neither form.
pub fn parse_inline_jsx(source: &str) -> (r: Option<InlineJsx>)
    ensures
        r matches Some(j) ==> inline_of(source@) == Some(j@),
        r is None ==> inline_of(source@) is None,
{
    let all = chars_of(source);
    let (a, b) = trim_range(&all, 0, all.len());
    let mut v: Vec<char> = Vec::new();
    let mut k = a;
    while k < b
        invariant
            a <= k <= b <= all@.len(),
            v@ == all@.subrange(a as int, k as int),
        decreases b - k,
    {
        v.push(all[k]);
        k += 1;
        assert(v@ =~= all@.subrange(a as int, k as int));
    }
    match parse_self_closing(&v) {
        Some(j) => Some(j),
        None => parse_with_children(&v),
    }
}

/// The HTML-escaped form of one character.
pub open spec fn escape_char(c: char) -> Seq<char> {
    if c == '&' {
        "&amp;"@
    } else if c == '<' {
        "&lt;"@
    } else if c == '>' {
        "&gt;"@
    } else if c == '"' {
        "&quot;"@
    } else if c == '\'' {
        "&#x27;"@
    } else {
        seq![c]
    }
}

/// `s` with `&`, `<`, `>`, `"` and `'` replaced by character references.
pub open spec fn html_escaped(s: Seq<char>) -> Seq<char>
    decreases s.len(),
{
    if s.len() == 0 {
        Seq::empty()
    } else {
        html_escaped(s.drop_last()) + escape_char(s.last())
    }
}

/// Appends `s` HTML-escaped.
pub fn push_html_escaped(out: &mut String, s: &str)
    ensures
        final(out)@ == old(out)@ + html_escaped(s@),
{
    let v = chars_of(s);
    let mut i: usize = 0;
    while i < v.len()
        invariant
            0 <= i <= v@.len(),
            v@ == s@,
            out@ == old(out)@ + html_escaped(v@.subrange(0, i as int)),
        decreases v@.len() - i,
    {
        let c = v[i];
        if c == '&' {
            push_str(out, "&amp;");
        } else if c == '<' {
            push_str(out, "&lt;");
        } else if c == '>' {
            push_str(out, "&gt;");
        } else if c == '"' {
            push_str(out, "&quot;");
        } else if c == '\'' {
            push_str(out, "&#x27;");
        } else {
            push_char(out, c);
        }
        assert(v@.subrange(0, i + 1).drop_last() =~= v@.subrange(0, i as int));
        i += 1;
        assert(out@ =~= old(out)@ + html_escaped(v@.subrange(0, i as int)));
    }
    assert(v@.subrange(0, v@.len() as int) =~= v@);
}

/// Escape HTML special characters, quotes included.
pub fn html_escape(s: &str) -> (r: String)
    ensures
        r@ == html_escaped(s@),
{
    let mut out = String::new();
    push_html_escaped(&mut out, s);
    out
}

/// The attribute one prop renders as, with a leading space: a string as
/// `name="escaped"`, `true` as a bare name; `false` and expressions render
/// nothing.
pub open spec fn attr_text(k: Seq<char>, v: PropV) -> Seq<char> {
    match v {
        PropV::Str(s) => seq![' '] + k + "=\""@ + html_escaped(s) + "\""@,
        PropV::Bool(b) => if b {
            seq![' '] + k
        } else {
            Seq::empty()
        },
        PropV::Expr(_) => Seq::empty(),
    }
}

/// The attributes of the first `n` props.
pub open spec fn attrs_text(m: PropSeq, n: int) -> Seq<char>
    decreases n,
{
    if n <= 0 {
        Seq::empty()
    } else {
        attrs_text(m, n - 1) + attr_text(m[n - 1].0, m[n - 1].1)
    }
}

/// `<tag attrs>children</tag>`.
pub open spec fn element_text(j: JsxV, tag: Seq<char>) -> Seq<char> {
    let body = match j.children {
        Some(c) => c,
        None => Seq::empty(),
    };
    seq!['<'] + tag + attrs_text(j.props, j.props.len() as int) + seq!['>'] + body + "</"@ + tag
        + seq!['>']
}

/// Render a usage as the custom element `tag_name`.
pub fn to_custom_element(jsx: &InlineJsx, tag_name: &str) -> (r: String)
    ensures
        r@ == element_text(jsx@, tag_name@),
{
    let mut out = String::new();
    push_char(&mut out, '<');
    push_str(&mut out, tag_name);
    let ghost head = out@;
    let n = jsx.props.len();
    let mut i: usize = 0;
    while i < n
        invariant
            0 <= i <= n == jsx.props@.len(),
            out@ == head + attrs_text(jsx.props@, i as int),
        decreases n - i,
    {
        let (k, v) = jsx.props.entry(i);
        match v {
            PropValue::String(s) => {
                push_char(&mut out, ' ');
                push_str(&mut out, k.as_str());
                push_str(&mut out, "=\"");
                push_html_escaped(&mut out, s.as_str());
                push_str(&mut out, "\"");
            },
            PropValue::Boolean(b) => {
                if *b {
                    push_char(&mut out, ' ');
                    push_str(&mut out, k.as_str());
                }
            },
            PropValue::Expression(_) => {},
        }
        i += 1;
        assert(out@ =~= head + attrs_text(jsx.props@, i as int));
    }
    push_char(&mut out, '>');
    match &jsx.children {
        Some(c) => push_str(&mut out, c.as_str()),
        None => {},
    }
    push_str(&mut out, "</");
    push_str(&mut out, tag_name);
    push_char(&mut out, '>');
    assert(out@ =~= element_text(jsx@, tag_name@));
    out
}

/// A character reference that escaping produces starts at `i` of `e`.
pub open spec fn entity_at(e: Seq<char>, i: int) -> bool {
    at(e, i, "&amp;"@) || at(e, i, "&lt;"@) || at(e, i, "&gt;"@) || at(e, i, "&quot;"@) || at(
        e,
        i,
        "&#x27;"@,
    )
}

/// Position `i` of `e` is safe inside a quoted attribute: no quote or angle
/// bracket, and an ampersand only as the start of a character reference.
pub open spec fn safe_at(e: Seq<char>, i: int) -> bool {
    e[i] != '"' && e[i] != '\'' && e[i] != '<' && e[i] != '>' && (e[i] == '&' ==> entity_at(e, i))
}

proof fn lemma_entity_extend(a: Seq<char>, b: Seq<char>, i: int)
    requires
        0 <= i < a.len(),
        entity_at(a, i),
    ensures
        entity_at(a + b, i),
{
    let w = a + b;
    assert forall|p: Seq<char>| #[trigger] at(a, i, p) implies at(w, i, p) by {
        assert(w.subrange(i, i + p.len()) =~= a.subrange(i, i + p.len()));
    }
}

proof fn lemma_escape_char_safe(c: char)
    ensures
        forall|i: int| 0 <= i < escape_char(c).len() ==> #[trigger] safe_at(escape_char(c), i),
{
    reveal_strlit("&amp;");
    reveal_strlit("&lt;");
    reveal_strlit("&gt;");
    reveal_strlit("&quot;");
    reveal_strlit("&#x27;");
    let e = escape_char(c);
    assert forall|i: int| 0 <= i < e.len() implies #[trigger] safe_at(e, i) by {
        if i == 0 && c == '&' {
            assert(e.subrange(0, 5) =~= "&amp;"@);
        } else if i == 0 && c == '<' {
            assert(e.subrange(0, 4) =~= "&lt;"@);
        } else if i == 0 && c == '>' {
            assert(e.subrange(0, 4) =~= "&gt;"@);
        } else if i == 0 && c == '"' {
            assert(e.subrange(0, 6) =~= "&quot;"@);
        } else if i == 0 && c == '\'' {
            assert(e.subrange(0, 6) =~= "&#x27;"@);
        }
    }
}

/// Escaped text is safe between the quotes of an attribute: it holds no
/// `"`, `'`, `<` or `>`, and each `&` in it starts a character reference.
pub proof fn lemma_escape_safe(s: Seq<char>)
    ensures
        forall|i: int| 0 <= i < html_escaped(s).len() ==> #[trigger] safe_at(html_escaped(s), i),
    decreases s.len(),
{
    if s.len() > 0 {
        let a = html_escaped(s.drop_last());
        let b = escape_char(s.last());
        lemma_escape_safe(s.drop_last());
        lemma_escape_char_safe(s.last());
        let w = a + b;
        assert forall|i: int| 0 <= i < w.len() implies #[trigger] safe_at(w, i) by {
            if i < a.len() {
                assert(safe_at(a, i));
                assert(w[i] == a[i]);
                if a[i] == '&' {
                    lemma_entity_extend(a, b, i);
                }
            } else {
                let k = i - a.len();
                assert(safe_at(b, k));
                assert(w[i] == b[k]);
                if b[k] == '&' {
                    assert forall|p: Seq<char>| #[trigger] at(b, k, p) implies at(w, i, p) by {
                        assert(w.subrange(i, i + p.len()) =~= b.subrange(k, k + p.len()));
                    }
                }
            }
        }
    }
}

} // verus!
