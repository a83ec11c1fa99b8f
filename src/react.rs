//! Pattern-based recovery of a component's class tables and attributes from
//! its source text.
use vstd::prelude::*;
use vstd::string::StringExecFns;

use crate::generator::generate_web_component;
use crate::text::{collapse, at, at_exec, find_exec, trim_end_by, chars_of, is_upper, lemma_scan, non_wsp, not_char, push_char, range_eq, scan, scan_until, scan_word, scan_ws, string_from, trim_range, trimmed, upper, word_p, wsp};
use crate::inline::{alnum_end, ascii_alnum_p};

verus! {

/// What the extractor recovers from a component's source.
#[derive(Debug, Clone, Default)]
pub struct ComponentStructure {
    /// Component name, such as `Button`.
    pub name: String,
    /// Variant name to class string, in source order, names unique.
    pub variant_lookup: Vec<(String, String)>,
    /// Size name to class string, in source order, names unique.
    pub size_lookup: Vec<(String, String)>,
    /// Classes applied whatever the variant.
    pub base_classes: String,
    /// Classes applied when disabled.
    pub disabled_classes: String,
    pub default_variant: String,
    pub default_size: String,
    /// Attributes the element observes, in order of discovery.
    pub observed_attributes: Vec<String>,
}

pub type Table = Seq<(Seq<char>, Seq<char>)>;

pub open spec fn table_view(t: Seq<(String, String)>) -> Table {
    Seq::new(t.len(), |i: int| (t[i].0@, t[i].1@))
}

pub open spec fn strings_view(t: Seq<String>) -> Seq<Seq<char>> {
    Seq::new(t.len(), |i: int| t[i]@)
}

pub struct StructV {
    pub name: Seq<char>,
    pub variants: Table,
    pub sizes: Table,
    pub base: Seq<char>,
    pub disabled: Seq<char>,
    pub default_variant: Seq<char>,
    pub default_size: Seq<char>,
    pub attrs: Seq<Seq<char>>,
}

impl View for ComponentStructure {
    type V = StructV;

    open spec fn view(&self) -> StructV {
        StructV {
            name: self.name@,
            variants: table_view(self.variant_lookup@),
            sizes: table_view(self.size_lookup@),
            base: self.base_classes@,
            disabled: self.disabled_classes@,
            default_variant: self.default_variant@,
            default_size: self.default_size@,
            attrs: strings_view(self.observed_attributes@),
        }
    }
}

/// Errors of a transformation.
#[derive(Debug, Clone, PartialEq)]
pub enum TransformError {
    ParseError(String),
    TransformError(String),
    /// The source defines no `variantClasses` table.
    MissingVariants,
    InvalidStructure(String),
}

/// Position of the entry named `k`, or -1.
pub open spec fn table_index(m: Table, k: Seq<char>) -> int
    decreases m.len(),
{
    if m.len() == 0 {
        -1
    } else if m.last().0 == k {
        m.len() - 1
    } else {
        table_index(m.drop_last(), k)
    }
}

/// `m` with `k` set to `v`: an existing entry keeps its place.
pub open spec fn table_put(m: Table, k: Seq<char>, v: Seq<char>) -> Table {
    let j = table_index(m, k);
    if j >= 0 {
        m.update(j, (k, v))
    } else {
        m.push((k, v))
    }
}

pub open spec fn is_quote(c: char) -> bool {
    c == '\'' || c == '"'
}

pub open spec fn not_quote_p() -> spec_fn(char) -> bool {
    |c: char| !is_quote(c)
}

/// A quoted string at `t` in `s[..hi]`, closed by either quote character:
/// the end of its text, or -1.
pub open spec fn quoted_end(s: Seq<char>, t: int, hi: int) -> int {
    if 0 <= t < hi && is_quote(s[t]) {
        let e = scan(s, t + 1, hi, not_quote_p());
        if e < hi {
            e
        } else {
            -1
        }
    } else {
        -1
    }
}

/// Entry `key: 'value'` at `i` of `s[..hi]`: (end, key, value).
pub open spec fn entry_at(s: Seq<char>, i: int, hi: int) -> Option<(int, Seq<char>, Seq<char>)> {
    let ke = scan(s, i, hi, word_p());
    let j = scan(s, ke, hi, wsp());
    let k = scan(s, j + 1, hi, wsp());
    if ke > i && j < hi && s[j] == ':' && quoted_end(s, k, hi) >= 0 {
        Some((quoted_end(s, k, hi) + 1, s.subrange(i, ke), s.subrange(k + 1, quoted_end(s, k, hi))))
    } else {
        None
    }
}

/// The entries of `s[i..hi]` put into `m`, scanning left to right.
pub open spec fn entries_from(s: Seq<char>, i: int, hi: int, m: Table) -> Table
    decreases hi - i,
{
    if i < 0 || i >= hi || hi > s.len() {
        m
    } else {
        match entry_at(s, i, hi) {
            Some(e) => if i < e.0 <= hi {
                entries_from(s, e.0, hi, table_put(m, e.1, e.2))
            } else {
                m
            },
            None => entries_from(s, i + 1, hi, m),
        }
    }
}

/// `const name (: Record<...>)? = { body }` at `i`: (end, name, body start,
/// body end).
pub open spec fn record_at(s: Seq<char>, i: int) -> Option<(int, Seq<char>, int, int)> {
    let n = s.len() as int;
    let q = scan(s, i + 5, n, wsp());
    let we = scan(s, q, n, word_p());
    let r = scan(s, we, n, wsp());
    let r2 = scan(s, r + 1, n, wsp());
    let g = scan(s, r2 + 7, n, not_char('>'));
    let t = if r < n && s[r] == ':' {
        if at(s, r2, "Record<"@) && g > r2 + 7 && g < n {
            scan(s, g + 1, n, wsp())
        } else {
            n
        }
    } else {
        r
    };
    let u = scan(s, t + 1, n, wsp());
    let ce = scan(s, u + 1, n, not_char('}'));
    if at(s, i, "const"@) && q > i + 5 && we > q && t < n && s[t] == '=' && u < n && s[u] == '{'
        && ce > u + 1 && ce < n {
        Some((ce + 1, s.subrange(q, we), u + 1, ce))
    } else {
        None
    }
}

/// Entries of every `name` record from `i` on, put into `m`; records are
/// matched left to right without overlap.
pub open spec fn records_from(s: Seq<char>, name: Seq<char>, i: int, m: Table) -> Table
    decreases s.len() - i,
{
    if i < 0 || i >= s.len() {
        m
    } else {
        match record_at(s, i) {
            Some(r) => if i < r.0 <= s.len() {
                records_from(
                    s,
                    name,
                    r.0,
                    if r.1 == name {
                        entries_from(s, r.2, r.3, m)
                    } else {
                        m
                    },
                )
            } else {
                m
            },
            None => records_from(s, name, i + 1, m),
        }
    }
}

/// The entries of the records named `name` in `s`.
pub open spec fn record_of(s: Seq<char>, name: Seq<char>) -> Table {
    records_from(s, name, 0, Seq::empty())
}

fn table_find(t: &Vec<(String, String)>, k: &str) -> (r: Option<usize>)
    ensures
        r matches Some(j) ==> table_index(table_view(t@), k@) == j && j < t@.len(),
        r is None ==> table_index(table_view(t@), k@) == -1,
{
    let mut i = t.len();
    assert(table_view(t@).subrange(0, i as int) =~= table_view(t@));
    while i > 0
        invariant
            i <= t@.len(),
            table_index(table_view(t@).subrange(0, i as int), k@) == table_index(
                table_view(t@),
                k@,
            ),
        decreases i,
    {
        let ghost pre = table_view(t@).subrange(0, i as int);
        assert(pre.last() == table_view(t@)[i - 1]);
        if crate::text::str_eq(t[i - 1].0.as_str(), k) {
            return Some(i - 1);
        }
        assert(pre.drop_last() =~= table_view(t@).subrange(0, i - 1));
        i -= 1;
    }
    assert(table_view(t@).subrange(0, 0) =~= Seq::<(Seq<char>, Seq<char>)>::empty());
    None
}

/// Sets `k` to `v` in `t`; a name already present keeps its place.
fn table_insert(t: &mut Vec<(String, String)>, k: String, v: String)
    ensures
        table_view(final(t)@) == table_put(table_view(old(t)@), k@, v@),
{
    match table_find(t, k.as_str()) {
        Some(j) => {
            let ghost kv = k@;
            let ghost vv = v@;
            t.set(j, (k, v));
            assert(table_view(t@) =~= table_put(table_view(old(t)@), kv, vv));
        },
        None => {
            let ghost kv = k@;
            let ghost vv = v@;
            t.push((k, v));
            assert(table_view(t@) =~= table_put(table_view(old(t)@), kv, vv));
        },
    }
}

fn quoted_end_exec(v: &Vec<char>, t: usize, hi: usize) -> (r: Option<usize>)
    requires
        hi <= v@.len(),
    ensures
        r matches Some(e) ==> quoted_end(v@, t as int, hi as int) == e && t < e < hi,
        r is None ==> quoted_end(v@, t as int, hi as int) < 0,
{
    if t < hi && (v[t] == '\'' || v[t] == '"') {
        proof {
            lemma_scan(v@, t + 1, hi as int, not_quote_p());
        }
        let mut e = t + 1;
        while e < hi && v[e] != '\'' && v[e] != '"'
            invariant
                t + 1 <= e <= hi <= v@.len(),
                scan(v@, e as int, hi as int, not_quote_p()) == scan(
                    v@,
                    t + 1,
                    hi as int,
                    not_quote_p(),
                ),
            decreases hi - e,
        {
            e += 1;
        }
        if e < hi {
            Some(e)
        } else {
            None
        }
    } else {
        None
    }
}

fn entry_at_exec(v: &Vec<char>, i: usize, hi: usize) -> (r: Option<(usize, String, String)>)
    requires
        i < hi <= v@.len(),
    ensures
        r matches Some(e) ==> entry_at(v@, i as int, hi as int) matches Some(x) && x.0 == e.0
            && x.1 == e.1@ && x.2 == e.2@ && e.0 > i,
        r is None ==> entry_at(v@, i as int, hi as int) is None,
{
    let ke = scan_word(v, i, hi);
    let j = scan_ws(v, ke, hi);
    if ke > i && j < hi && v[j] == ':' {
        let k = scan_ws(v, j + 1, hi);
        match quoted_end_exec(v, k, hi) {
            Some(e) => {
                let key = string_from(v, i, ke);
                let val = string_from(v, k + 1, e);
                Some((e + 1, key, val))
            },
            None => None,
        }
    } else {
        None
    }
}

fn put_entries(v: &Vec<char>, lo: usize, hi: usize, t: &mut Vec<(String, String)>)
    requires
        lo <= hi <= v@.len(),
    ensures
        table_view(final(t)@) == entries_from(v@, lo as int, hi as int, table_view(old(t)@)),
{
    let mut i = lo;
    while i < hi
        invariant
            lo <= i <= hi <= v@.len(),
            entries_from(v@, i as int, hi as int, table_view(t@)) == entries_from(
                v@,
                lo as int,
                hi as int,
                table_view(old(t)@),
            ),
        decreases hi - i,
    {
        match entry_at_exec(v, i, hi) {
            Some((e, k, val)) => {
                table_insert(t, k, val);
                i = e;
            },
            None => {
                i += 1;
            },
        }
    }
}

fn record_at_exec(v: &Vec<char>, i: usize) -> (r: Option<(usize, usize, usize, usize, usize)>)
    requires
        i < v@.len(),
    ensures
        r matches Some(x) ==> record_at(v@, i as int) matches Some(y) && y.0 == x.0 && y.1
            == v@.subrange(x.1 as int, x.2 as int) && y.2 == x.3 && y.3 == x.4 && x.0 > i && x.1
            <= x.2 <= v@.len() && x.3 <= x.4 <= v@.len(),
        r is None ==> record_at(v@, i as int) is None,
{
    let n = v.len();
    if !at_exec(v, i, "const") {
        return None;
    }
    proof {
        reveal_strlit("const");
        reveal_strlit("Record<");
    }
    let q = scan_ws(v, i + 5, n);
    let we = scan_word(v, q, n);
    let r = scan_ws(v, we, n);
    let t = if r < n && v[r] == ':' {
        let r2 = scan_ws(v, r + 1, n);
        if n - r2 >= 7 {
            let g = scan_until(v, r2 + 7, n, '>');
            if at_exec(v, r2, "Record<") && g > r2 + 7 && g < n {
                scan_ws(v, g + 1, n)
            } else {
                n
            }
        } else {
            proof {
                assert(!at(v@, r2 as int, "Record<"@));
            }
            n
        }
    } else {
        r
    };
    if !(q > i + 5 && we > q && t < n && v[t] == '=') {
        return None;
    }
    let u = scan_ws(v, t + 1, n);
    if !(u < n && v[u] == '{') {
        return None;
    }
    let ce = scan_until(v, u + 1, n, '}');
    if ce > u + 1 && ce < n {
        Some((ce + 1, q, we, u + 1, ce))
    } else {
        None
    }
}

/// Extract the entries of the `const name = { key: 'classes', ... }` records
/// of `source`, merged in order, a later value of a key replacing an earlier
/// one.
pub fn extract_record(source: &str, name: &str) -> (r: Result<
    Vec<(String, String)>,
    TransformError,
>)
    ensures
        r matches Ok(t) && table_view(t@) == record_of(source@, name@),
{
    let v = chars_of(source);
    let mut t: Vec<(String, String)> = Vec::new();
    assert(table_view(t@) =~= Seq::<(Seq<char>, Seq<char>)>::empty());
    let mut i: usize = 0;
    while i < v.len()
        invariant
            0 <= i <= v@.len(),
            v@ == source@,
            records_from(v@, name@, i as int, table_view(t@)) == record_of(source@, name@),
        decreases v@.len() - i,
    {
        match record_at_exec(&v, i) {
            Some((e, a, b, lo, hi)) => {
                if range_eq(&v, a, b, name) {
                    put_entries(&v, lo, hi, &mut t);
                }
                i = e;
            },
            None => {
                i += 1;
            },
        }
    }
    Ok(t)
}

/// A `function` or `const` declaration of an upper-case name at `i`: the
/// bounds of the name.
pub open spec fn decl_at(s: Seq<char>, i: int) -> Option<(int, int)> {
    let n = s.len() as int;
    let kw = if at(s, i, "function"@) {
        i + 8
    } else if at(s, i, "const"@) {
        i + 5
    } else {
        -1
    };
    let j = scan(s, kw, n, wsp());
    if kw >= 0 && j > kw && j < n && is_upper(s[j]) {
        Some((j, scan(s, j + 1, n, ascii_alnum_p())))
    } else {
        None
    }
}

/// The first component declaration at or after `i`.
pub open spec fn name_from(s: Seq<char>, i: int) -> Option<Seq<char>>
    decreases s.len() - i,
{
    if i < 0 || i >= s.len() {
        None
    } else {
        match decl_at(s, i) {
            Some(d) => Some(s.subrange(d.0, d.1)),
            None => name_from(s, i + 1),
        }
    }
}

/// Extract the component's name: the first `function` or `const` whose
/// identifier starts with an upper-case letter.
pub fn extract_component_name(source: &str) -> (r: Option<String>)
    ensures
        r matches Some(x) ==> name_from(source@, 0) == Some(x@),
        r is None ==> name_from(source@, 0) is None,
{
    let v = chars_of(source);
    let n = v.len();
    proof {
        reveal_strlit("function");
        reveal_strlit("const");
    }
    let mut i: usize = 0;
    while i < n
        invariant
            0 <= i <= n == v@.len(),
            v@ == source@,
            name_from(v@, i as int) == name_from(v@, 0),
        decreases n - i,
    {
        proof {
            reveal_strlit("function");
            reveal_strlit("const");
        }
        let kw = if at_exec(&v, i, "function") {
            i + 8
        } else if at_exec(&v, i, "const") {
            i + 5
        } else {
            n
        };
        if kw < n && (at_exec(&v, i, "function") || at_exec(&v, i, "const")) {
            let j = scan_ws(&v, kw, n);
            if j > kw && j < n && upper(v[j]) {
                let e = alnum_end(&v, j + 1, n);
                return Some(string_from(&v, j, e));
            }
        }
        i += 1;
    }
    None
}

/// `const baseClasses = ` followed by a quote at `i`: the position of that
/// quote, or -1.
pub open spec fn base_decl(s: Seq<char>, i: int) -> int {
    let n = s.len() as int;
    let q = scan(s, i + 5, n, wsp());
    let r = scan(s, q + 11, n, wsp());
    let t = scan(s, r + 1, n, wsp());
    if at(s, i, "const"@) && q > i + 5 && at(s, q, "baseClasses"@) && r < n && s[r] == '='
        && t < n && is_quote(s[t]) {
        t
    } else {
        -1
    }
}

/// First `i >= from` with a base declaration: one followed by at least one
/// character before `;` when `concat`, else one whose literal is closed and
/// not empty.
pub open spec fn first_base(s: Seq<char>, from: int, concat: bool) -> Option<int>
    decreases s.len() - from,
{
    if from < 0 || from >= s.len() {
        None
    } else if base_decl(s, from) >= 0 && (if concat {
        concat_end(s, base_decl(s, from)) > base_decl(s, from) + 1
    } else {
        let t = base_decl(s, from);
        quoted_end(s, t, s.len() as int) > t + 1
    }) {
        Some(from)
    } else {
        first_base(s, from + 1, concat)
    }
}

/// End of the expression after the quote at `t`: up to the first `;`.
pub open spec fn concat_end(s: Seq<char>, t: int) -> int {
    scan(s, t + 1, s.len() as int, not_char(';'))
}

/// The text of each quoted string in `s[i..hi]`, appended to `acc`.
pub open spec fn pieces_from(s: Seq<char>, i: int, hi: int, acc: Seq<Seq<char>>) -> Seq<
    Seq<char>,
>
    decreases hi - i,
{
    if i < 0 || i >= hi || hi > s.len() {
        acc
    } else if is_quote(s[i]) {
        let e = quoted_end(s, i, hi);
        if i < e < hi {
            pieces_from(s, e + 1, hi, acc.push(s.subrange(i + 1, e)))
        } else {
            acc
        }
    } else {
        pieces_from(s, i + 1, hi, acc)
    }
}

/// `parts` joined by single spaces.
pub open spec fn join_spaced(parts: Seq<Seq<char>>) -> Seq<char>
    decreases parts.len(),
{
    if parts.len() == 0 {
        Seq::empty()
    } else if parts.len() == 1 {
        parts[0]
    } else {
        join_spaced(parts.drop_last()) + seq![' '] + parts.last()
    }
}

/// White-space separated words of `t`, joined by single spaces.
pub open spec fn normalized(t: Seq<char>) -> Seq<char> {
    collapse(t, t.len() as int, non_wsp(), ' ')
}

/// The base classes of `s`: the quoted pieces of the first
/// `const baseClasses = '...' + '...'` expression, normalized, when not
/// empty; else the single literal of the first `const baseClasses = '...'`.
pub open spec fn base_of(s: Seq<char>) -> Option<Seq<char>> {
    let concat = match first_base(s, 0, true) {
        Some(i) => {
            let t = base_decl(s, i);
            normalized(join_spaced(pieces_from(s, t, concat_end(s, t), Seq::empty())))
        },
        None => Seq::empty(),
    };
    if concat.len() > 0 {
        Some(concat)
    } else {
        match first_base(s, 0, false) {
            Some(i) => {
                let t = base_decl(s, i);
                Some(s.subrange(t + 1, quoted_end(s, t, s.len() as int)))
            },
            None => None,
        }
    }
}

fn base_decl_exec(v: &Vec<char>, i: usize) -> (r: Option<usize>)
    requires
        i < v@.len(),
    ensures
        r matches Some(t) ==> base_decl(v@, i as int) == t && t < v@.len(),
        r is None ==> base_decl(v@, i as int) < 0,
{
    let n = v.len();
    proof {
        reveal_strlit("const");
        reveal_strlit("baseClasses");
    }
    if !at_exec(v, i, "const") {
        return None;
    }
    let q = scan_ws(v, i + 5, n);
    if !(q > i + 5 && at_exec(v, q, "baseClasses")) {
        return None;
    }
    let r = scan_ws(v, q + 11, n);
    if !(r < n && v[r] == '=') {
        return None;
    }
    let t = scan_ws(v, r + 1, n);
    if t < n && (v[t] == '\'' || v[t] == '"') {
        Some(t)
    } else {
        None
    }
}

fn first_base_exec(v: &Vec<char>, concat: bool) -> (r: Option<usize>)
    ensures
        r matches Some(i) ==> first_base(v@, 0, concat) == Some(i as int) && base_decl(v@, i as int)
            >= 0 && i < v@.len() && (!concat ==> quoted_end(
            v@,
            base_decl(v@, i as int),
            v@.len() as int,
        ) > base_decl(v@, i as int) + 1),
        r is None ==> first_base(v@, 0, concat) is None,
{
    let n = v.len();
    let mut i: usize = 0;
    while i < n
        invariant
            0 <= i <= n == v@.len(),
            first_base(v@, i as int, concat) == first_base(v@, 0, concat),
        decreases n - i,
    {
        match base_decl_exec(v, i) {
            Some(t) => {
                let ok = if concat {
                    let e = scan_until(v, t + 1, n, ';');
                    e > t + 1
                } else {
                    match quoted_end_exec(v, t, n) {
                        Some(e) => e > t + 1,
                        None => false,
                    }
                };
                if ok {
                    return Some(i);
                }
            },
            None => {},
        }
        i += 1;
    }
    None
}

/// The white-space separated words of `t`, joined by single spaces.
fn collapse_ws(t: &Vec<char>) -> (r: (String, bool))
    ensures
        r.0@ == normalized(t@),
        r.1 == (r.0@.len() > 0),
{
    let mut out = String::new();
    let mut some = false;
    let mut i: usize = 0;
    while i < t.len()
        invariant
            0 <= i <= t@.len(),
            out@ == collapse(t@, i as int, non_wsp(), ' '),
            some == (out@.len() > 0),
            i == 0 ==> !some,
        decreases t@.len() - i,
    {
        let c = t[i];
        if crate::text::ws(c) {
        } else if some && crate::text::ws(t[i - 1]) {
            push_char(&mut out, ' ');
            push_char(&mut out, c);
        } else {
            push_char(&mut out, c);
        }
        some = some || !crate::text::ws(c);
        i += 1;
        assert(out@ =~= collapse(t@, i as int, non_wsp(), ' '));
    }
    (out, some)
}

/// The quoted pieces of `v[lo..hi]` joined by spaces, white space
/// normalized; and whether the result is not empty.
fn parse_concatenated_string(v: &Vec<char>, t: usize, e: usize) -> (r: (String, bool))
    requires
        t <= e <= v@.len(),
    ensures
        r.0@ == normalized(join_spaced(pieces_from(v@, t as int, e as int, Seq::empty()))),
        r.1 == (r.0@.len() > 0),
{
    let n = v.len();
    let mut joined: Vec<char> = Vec::new();
    let ghost pieces = pieces_from(v@, t as int, e as int, Seq::empty());
    let mut k = t;
    let mut count: usize = 0;
    let ghost acc: Seq<Seq<char>> = Seq::empty();
    while k < e
        invariant
            t <= k <= e <= n == v@.len(),
            pieces_from(v@, k as int, e as int, acc) == pieces,
            joined@ == join_spaced(acc),
            count == acc.len(),
            count <= k,
        decreases e - k,
    {
        if v[k] == '\'' || v[k] == '"' {
            match quoted_end_exec(v, k, e) {
                Some(q) => {
                    if count > 0 {
                        joined.push(' ');
                    }
                    let mut m = k + 1;
                    let ghost before = joined@;
                    while m < q
                        invariant
                            k + 1 <= m <= q < e <= n == v@.len(),
                            joined@ == before + v@.subrange(k + 1, m as int),
                        decreases q - m,
                    {
                        joined.push(v[m]);
                        m += 1;
                        assert(joined@ =~= before + v@.subrange(k + 1, m as int));
                    }
                    proof {
                        let nacc = acc.push(v@.subrange(k + 1, q as int));
                        assert(nacc.drop_last() =~= acc);
                        assert(joined@ =~= join_spaced(nacc));
                        acc = nacc;
                    }
                    k = q + 1;
                    count += 1;
                },
                None => {
                    k = e;
                },
            }
        } else {
            k += 1;
        }
    }
    collapse_ws(&joined)
}

/// Extract the base classes of a component.
pub fn extract_base_classes(source: &str) -> (r: Option<String>)
    ensures
        r matches Some(x) ==> base_of(source@) == Some(x@),
        r is None ==> base_of(source@) is None,
{
    let v = chars_of(source);
    let n = v.len();
    match first_base_exec(&v, true) {
        Some(i) => {
            let t = base_decl_exec(&v, i).unwrap();
            let e = scan_until(&v, t + 1, n, ';');
            let (c, some) = parse_concatenated_string(&v, t, e);
            if some {
                return Some(c);
            }
        },
        None => {},
    }
    match first_base_exec(&v, false) {
        Some(i) => {
            let t = base_decl_exec(&v, i).unwrap();
            let q = quoted_end_exec(&v, t, n).unwrap();
            Some(string_from(&v, t + 1, q))
        },
        None => None,
    }
}

/// `disabledClasses = '...'` or `disabledCls = '...'` at `i`: the bounds of
/// the literal's text.
pub open spec fn disabled_at(s: Seq<char>, i: int) -> Option<(int, int)> {
    let n = s.len() as int;
    let p = if at(s, i, "disabledClasses"@) {
        i + 15
    } else if at(s, i, "disabledCls"@) {
        i + 11
    } else {
        -1
    };
    let r = scan(s, p, n, wsp());
    let t = scan(s, r + 1, n, wsp());
    let e = quoted_end(s, t, n);
    if p >= 0 && r < n && s[r] == '=' && e > t + 1 {
        Some((t + 1, e))
    } else {
        None
    }
}

pub open spec fn disabled_from(s: Seq<char>, i: int) -> Option<Seq<char>>
    decreases s.len() - i,
{
    if i < 0 || i >= s.len() {
        None
    } else {
        match disabled_at(s, i) {
            Some(d) => Some(s.subrange(d.0, d.1)),
            None => disabled_from(s, i + 1),
        }
    }
}

/// Extract the classes a component applies when disabled.
pub fn extract_disabled_classes(source: &str) -> (r: Option<String>)
    ensures
        r matches Some(x) ==> disabled_from(source@, 0) == Some(x@),
        r is None ==> disabled_from(source@, 0) is None,
{
    let v = chars_of(source);
    let n = v.len();
    proof {
        reveal_strlit("disabledClasses");
        reveal_strlit("disabledCls");
    }
    let mut i: usize = 0;
    while i < n
        invariant
            0 <= i <= n == v@.len(),
            v@ == source@,
            disabled_from(v@, i as int) == disabled_from(v@, 0),
        decreases n - i,
    {
        proof {
            reveal_strlit("disabledClasses");
            reveal_strlit("disabledCls");
        }
        let p = if at_exec(&v, i, "disabledClasses") {
            i + 15
        } else if at_exec(&v, i, "disabledCls") {
            i + 11
        } else {
            n
        };
        if p < n && (at_exec(&v, i, "disabledClasses") || at_exec(&v, i, "disabledCls")) {
            let r = scan_ws(&v, p, n);
            if r < n && v[r] == '=' {
                let t = scan_ws(&v, r + 1, n);
                match quoted_end_exec(&v, t, n) {
                    Some(e) => {
                        if e > t + 1 {
                            return Some(string_from(&v, t + 1, e));
                        }
                    },
                    None => {},
                }
            }
        }
        i += 1;
    }
    None
}

/// A name that never becomes an observed attribute.
pub open spec fn excluded(name: Seq<char>) -> bool {
    name == "children"@ || name == "className"@ || name == "style"@
}

/// `a` with `name` added at the end, unless it is empty, already present or
/// excluded (and, when `spread` is set, unless it starts with `...`).
pub open spec fn add_attr(a: Seq<Seq<char>>, name: Seq<char>, prefix: Seq<char>) -> Seq<
    Seq<char>,
> {
    if name.len() > 0 && !a.contains(name) && !excluded(name) && !(name.len() >= prefix.len()
        && name.subrange(0, prefix.len() as int) == prefix) {
        a.push(name)
    } else {
        a
    }
}

pub open spec fn field_end_p() -> spec_fn(char) -> bool {
    |c: char| c != ':' && c != '?'
}

pub open spec fn pattern_end_p() -> spec_fn(char) -> bool {
    |c: char| c != '=' && c != ':'
}

/// Names from the fields of a props body `s[i..hi]`, one per line: the text
/// before the first `:` or `?`, trimmed; comment lines are skipped.
pub open spec fn field_names(s: Seq<char>, i: int, hi: int, a: Seq<Seq<char>>) -> Seq<Seq<char>>
    decreases hi + 1 - i,
{
    if i < 0 || i > hi || hi > s.len() {
        a
    } else {
        let le = scan(s, i, hi, not_char('\n'));
        let x = scan(s, i, le, wsp());
        let y = trim_end_by(s, x, le, wsp());
        let name = trimmed(s, x, scan(s, x, y, field_end_p()));
        if i <= le <= hi {
            field_names(s, le + 1, hi, add_attr(a, name, "//"@))
        } else {
            a
        }
    }
}

/// Names from a destructuring pattern `s[i..hi]`: for each `,`-separated
/// part, the text before the first `=` or `:`, trimmed; rest entries are
/// skipped.
pub open spec fn pattern_names(s: Seq<char>, i: int, hi: int, a: Seq<Seq<char>>) -> Seq<
    Seq<char>,
>
    decreases hi + 1 - i,
{
    if i < 0 || i > hi || hi > s.len() {
        a
    } else {
        let pe = scan(s, i, hi, not_char(','));
        let name = trimmed(s, i, scan(s, i, pe, pattern_end_p()));
        if i <= pe <= hi {
            pattern_names(s, pe + 1, hi, add_attr(a, name, "..."@))
        } else {
            a
        }
    }
}

/// `interface XProps {` or `type XProps = {` at `i`: the bounds of the body.
pub open spec fn props_type_at(s: Seq<char>, i: int) -> Option<(int, int)> {
    let n = s.len() as int;
    let kw = if at(s, i, "interface"@) {
        i + 9
    } else if at(s, i, "type"@) {
        i + 4
    } else {
        -1
    };
    let q = scan(s, kw, n, wsp());
    let we = scan(s, q, n, word_p());
    let r = scan(s, we, n, wsp());
    let b = if at(s, i, "interface"@) {
        r
    } else if r < n && s[r] == '=' {
        scan(s, r + 1, n, wsp())
    } else {
        n
    };
    let ce = scan(s, b + 1, n, not_char('}'));
    if kw >= 0 && q > kw && we >= q + 5 && at(s, we - 5, "Props"@) && b < n && s[b] == '{' && ce
        > b + 1 && ce < n {
        Some((b + 1, ce))
    } else {
        None
    }
}

pub open spec fn first_props_type(s: Seq<char>, i: int) -> Option<(int, int)>
    decreases s.len() - i,
{
    if i < 0 || i >= s.len() {
        None
    } else {
        match props_type_at(s, i) {
            Some(d) => Some(d),
            None => first_props_type(s, i + 1),
        }
    }
}

/// `{ names }` followed by an optional `: Type` and `)` at `i`: the bounds
/// of the names.
pub open spec fn pattern_at(s: Seq<char>, i: int) -> Option<(int, int)> {
    let n = s.len() as int;
    let ce = scan(s, i + 1, n, not_char('}'));
    let a = scan(s, ce + 1, n, wsp());
    let b = scan(s, a + 1, n, wsp());
    let we = scan(s, b, n, word_p());
    let c = scan(s, we, n, wsp());
    if 0 <= i < n && s[i] == '{' && ce > i + 1 && ce < n && a < n && (s[a] == ')' || (s[a] == ':'
        && we > b && c < n && s[c] == ')')) {
        Some((i + 1, ce))
    } else {
        None
    }
}

pub open spec fn first_pattern(s: Seq<char>, i: int) -> Option<(int, int)>
    decreases s.len() - i,
{
    if i < 0 || i >= s.len() {
        None
    } else {
        match pattern_at(s, i) {
            Some(d) => Some(d),
            None => first_pattern(s, i + 1),
        }
    }
}

/// The four common attribute names that occur anywhere in `s`, in order.
pub open spec fn common_attrs(s: Seq<char>) -> Seq<Seq<char>> {
    let a0 = Seq::<Seq<char>>::empty();
    let a1 = if crate::text::find_from(s, "variant"@, 0) is Some {
        a0.push("variant"@)
    } else {
        a0
    };
    let a2 = if crate::text::find_from(s, "size"@, 0) is Some {
        a1.push("size"@)
    } else {
        a1
    };
    let a3 = if crate::text::find_from(s, "disabled"@, 0) is Some {
        a2.push("disabled"@)
    } else {
        a2
    };
    if crate::text::find_from(s, "loading"@, 0) is Some {
        a3.push("loading"@)
    } else {
        a3
    }
}

/// The attributes a component observes: the common names it mentions, then
/// the fields of its first props type, then the names of its first
/// destructuring pattern, each once.
pub open spec fn attrs_of(s: Seq<char>) -> Seq<Seq<char>> {
    let a = common_attrs(s);
    let b = match first_props_type(s, 0) {
        Some(d) => field_names(s, d.0, d.1, a),
        None => a,
    };
    match first_pattern(s, 0) {
        Some(d) => pattern_names(s, d.0, d.1, b),
        None => b,
    }
}

fn add_attr_exec(a: &mut Vec<String>, v: &Vec<char>, lo: usize, hi: usize, prefix: &str)
    requires
        lo <= hi <= v@.len(),
    ensures
        strings_view(final(a)@) == add_attr(
            strings_view(old(a)@),
            v@.subrange(lo as int, hi as int),
            prefix@,
        ),
{
    let ghost name = v@.subrange(lo as int, hi as int);
    if lo == hi {
        return;
    }
    let mut k: usize = 0;
    while k < a.len()
        invariant
            0 <= k <= a@.len(),
            lo < hi <= v@.len(),
            name == v@.subrange(lo as int, hi as int),
            a@ == old(a)@,
            forall|j: int| 0 <= j < k ==> strings_view(a@)[j] != name,
        decreases a@.len() - k,
    {
        if range_eq(v, lo, hi, a[k].as_str()) {
            assert(strings_view(a@)[k as int] == name);
            assert(strings_view(a@).contains(name));
            return;
        }
        k += 1;
    }
    assert(!strings_view(a@).contains(name));
    if range_eq(v, lo, hi, "children") || range_eq(v, lo, hi, "className") || range_eq(
        v,
        lo,
        hi,
        "style",
    ) {
        return;
    }
    let p = chars_of(prefix);
    proof {
        if hi - lo >= p@.len() {
            assert(name.subrange(0, p@.len() as int) =~= v@.subrange(
                lo as int,
                lo + p@.len(),
            ));
        }
    }
    if hi - lo >= p.len() && range_eq(v, lo, lo + p.len(), prefix) {
        return;
    }
    let ghost old_view = strings_view(a@);
    a.push(string_from(v, lo, hi));
    assert(strings_view(a@) =~= old_view.push(name));
}

fn field_names_exec(v: &Vec<char>, lo: usize, hi: usize, a: &mut Vec<String>)
    requires
        lo <= hi <= v@.len(),
    ensures
        strings_view(final(a)@) == field_names(v@, lo as int, hi as int, strings_view(old(a)@)),
{
    let mut i = lo;
    loop
        invariant
            lo <= i <= hi <= v@.len(),
            field_names(v@, i as int, hi as int, strings_view(a@)) == field_names(
                v@,
                lo as int,
                hi as int,
                strings_view(old(a)@),
            ),
        decreases hi - i,
    {
        let le = scan_until(v, i, hi, '\n');
        let (x, y) = trim_range(v, i, le);
        proof {
            lemma_scan(v@, x as int, y as int, field_end_p());
        }
        let mut f = x;
        while f < y && v[f] != ':' && v[f] != '?'
            invariant
                x <= f <= y <= v@.len(),
                scan(v@, f as int, y as int, field_end_p()) == scan(
                    v@,
                    x as int,
                    y as int,
                    field_end_p(),
                ),
            decreases y - f,
        {
            f += 1;
        }
        let (na, nb) = trim_range(v, x, f);
        let ghost before = strings_view(a@);
        add_attr_exec(a, v, na, nb, "//");
        assert(field_names(v@, i as int, hi as int, before) == field_names(
            v@,
            le + 1,
            hi as int,
            strings_view(a@),
        ));
        if le >= hi {
            return;
        }
        i = le + 1;
    }
}

fn pattern_names_exec(v: &Vec<char>, lo: usize, hi: usize, a: &mut Vec<String>)
    requires
        lo <= hi <= v@.len(),
    ensures
        strings_view(final(a)@) == pattern_names(v@, lo as int, hi as int, strings_view(old(a)@)),
{
    let mut i = lo;
    loop
        invariant
            lo <= i <= hi <= v@.len(),
            pattern_names(v@, i as int, hi as int, strings_view(a@)) == pattern_names(
                v@,
                lo as int,
                hi as int,
                strings_view(old(a)@),
            ),
        decreases hi - i,
    {
        let pe = scan_until(v, i, hi, ',');
        proof {
            lemma_scan(v@, i as int, pe as int, pattern_end_p());
        }
        let mut f = i;
        while f < pe && v[f] != '=' && v[f] != ':'
            invariant
                i <= f <= pe <= v@.len(),
                scan(v@, f as int, pe as int, pattern_end_p()) == scan(
                    v@,
                    i as int,
                    pe as int,
                    pattern_end_p(),
                ),
            decreases pe - f,
        {
            f += 1;
        }
        let (na, nb) = trim_range(v, i, f);
        let ghost before = strings_view(a@);
        add_attr_exec(a, v, na, nb, "...");
        assert(pattern_names(v@, i as int, hi as int, before) == pattern_names(
            v@,
            pe + 1,
            hi as int,
            strings_view(a@),
        ));
        if pe >= hi {
            return;
        }
        i = pe + 1;
    }
}

fn props_type_at_exec(v: &Vec<char>, i: usize) -> (r: Option<(usize, usize)>)
    requires
        i < v@.len(),
    ensures
        r matches Some(d) ==> props_type_at(v@, i as int) == Some((d.0 as int, d.1 as int))
            && d.0 <= d.1 <= v@.len(),
        r is None ==> props_type_at(v@, i as int) is None,
{
    let n = v.len();
    proof {
        reveal_strlit("interface");
        reveal_strlit("type");
        reveal_strlit("Props");
    }
    let is_iface = at_exec(v, i, "interface");
    let kw = if is_iface {
        i + 9
    } else if at_exec(v, i, "type") {
        i + 4
    } else {
        return None;
    };
    let q = scan_ws(v, kw, n);
    let we = scan_word(v, q, n);
    let r = scan_ws(v, we, n);
    let b = if is_iface {
        r
    } else if r < n && v[r] == '=' {
        scan_ws(v, r + 1, n)
    } else {
        n
    };
    if !(q > kw && we - q >= 5 && at_exec(v, we - 5, "Props") && b < n && v[b] == '{') {
        return None;
    }
    let ce = scan_until(v, b + 1, n, '}');
    if ce > b + 1 && ce < n {
        Some((b + 1, ce))
    } else {
        None
    }
}

fn pattern_at_exec(v: &Vec<char>, i: usize) -> (r: Option<(usize, usize)>)
    requires
        i < v@.len(),
    ensures
        r matches Some(d) ==> pattern_at(v@, i as int) == Some((d.0 as int, d.1 as int)) && d.0
            <= d.1 <= v@.len(),
        r is None ==> pattern_at(v@, i as int) is None,
{
    let n = v.len();
    if v[i] != '{' {
        return None;
    }
    let ce = scan_until(v, i + 1, n, '}');
    if !(ce > i + 1 && ce < n) {
        return None;
    }
    let a = scan_ws(v, ce + 1, n);
    if a >= n {
        return None;
    }
    if v[a] == ')' {
        return Some((i + 1, ce));
    }
    let b = scan_ws(v, a + 1, n);
    let we = scan_word(v, b, n);
    let c = scan_ws(v, we, n);
    if v[a] == ':' && we > b && c < n && v[c] == ')' {
        Some((i + 1, ce))
    } else {
        None
    }
}

/// Extract the attributes a component observes.
pub fn extract_attributes(source: &str) -> (r: Vec<String>)
    ensures
        strings_view(r@) == attrs_of(source@),
{
    let v = chars_of(source);
    let n = v.len();
    let mut attrs: Vec<String> = Vec::new();
    let ghost a0 = strings_view(attrs@);
    assert(a0 =~= Seq::<Seq<char>>::empty());
    if find_exec(&v, "variant", 0).is_some() {
        attrs.push(String::from_str("variant"));
    }
    if find_exec(&v, "size", 0).is_some() {
        attrs.push(String::from_str("size"));
    }
    if find_exec(&v, "disabled", 0).is_some() {
        attrs.push(String::from_str("disabled"));
    }
    if find_exec(&v, "loading", 0).is_some() {
        attrs.push(String::from_str("loading"));
    }
    assert(strings_view(attrs@) =~= common_attrs(source@));
    let ghost c = common_attrs(source@);
    let ghost b = match first_props_type(v@, 0) {
        Some(d) => field_names(v@, d.0, d.1, c),
        None => c,
    };
    let mut i: usize = 0;
    let mut found = false;
    while i < n && !found
        invariant
            0 <= i <= n == v@.len(),
            v@ == source@,
            c == common_attrs(source@),
            b == match first_props_type(v@, 0) {
                Some(d) => field_names(v@, d.0, d.1, c),
                None => c,
            },
            !found ==> first_props_type(v@, i as int) == first_props_type(v@, 0),
            !found ==> strings_view(attrs@) == c,
            found ==> strings_view(attrs@) == b,
        decreases n - i,
    {
        match props_type_at_exec(&v, i) {
            Some((lo, hi)) => {
                assert(first_props_type(v@, i as int) == Some((lo as int, hi as int)));
                field_names_exec(&v, lo, hi, &mut attrs);
                found = true;
                i = n;
            },
            None => {
                i += 1;
            },
        }
    }
    let mut j: usize = 0;
    let mut done = false;
    while j < n && !done
        invariant
            0 <= j <= n == v@.len(),
            v@ == source@,
            c == common_attrs(source@),
            b == match first_props_type(v@, 0) {
                Some(d) => field_names(v@, d.0, d.1, c),
                None => c,
            },
            !done ==> first_pattern(v@, j as int) == first_pattern(v@, 0),
            !done ==> strings_view(attrs@) == b,
            done ==> strings_view(attrs@) == attrs_of(source@),
        decreases n - j,
    {
        match pattern_at_exec(&v, j) {
            Some((lo, hi)) => {
                assert(first_pattern(v@, j as int) == Some((lo as int, hi as int)));
                pattern_names_exec(&v, lo, hi, &mut attrs);
                done = true;
                j = n;
            },
            None => {
                j += 1;
            },
        }
    }
    attrs
}

/// The classes a component applies when disabled, unless it says otherwise.
pub const DEFAULT_DISABLED: &'static str = "opacity-50 pointer-events-none cursor-not-allowed";

/// The structure recovered from `s`, or `None` when it has no variant
/// entries. Every other field falls back to a default: name `Component`,
/// empty base classes, [`DEFAULT_DISABLED`], size `default`.
pub open spec fn structure_of(s: Seq<char>) -> Option<StructV> {
    let variants = record_of(s, "variantClasses"@);
    let sizes = record_of(s, "sizeClasses"@);
    if variants.len() == 0 {
        None
    } else {
        Some(
            StructV {
                name: match name_from(s, 0) {
                    Some(n) => n,
                    None => "Component"@,
                },
                variants,
                sizes,
                base: match base_of(s) {
                    Some(b) => b,
                    None => Seq::empty(),
                },
                disabled: match disabled_from(s, 0) {
                    Some(d) => d,
                    None => DEFAULT_DISABLED@,
                },
                default_variant: variants[0].0,
                default_size: if sizes.len() > 0 {
                    sizes[0].0
                } else {
                    "default"@
                },
                attrs: attrs_of(s),
            },
        )
    }
}

/// The component adapter for React-style sources.
#[derive(Debug, Default)]
pub struct ReactAdapter;

impl ReactAdapter {
    pub fn new() -> (r: Self) {
        ReactAdapter
    }

    /// Extract the structure of a component from its source.
    pub fn extract_structure(&self, source: &str) -> (r: Result<
        ComponentStructure,
        TransformError,
    >)
        ensures
            r is Err <==> structure_of(source@) is None,
            r matches Err(e) ==> e == TransformError::MissingVariants,
            r matches Ok(st) ==> structure_of(source@) == Some(st@),
    {
        let variant_lookup = match extract_record(source, "variantClasses") {
            Ok(t) => t,
            Err(e) => {
                return Err(e);
            },
        };
        if variant_lookup.len() == 0 {
            return Err(TransformError::MissingVariants);
        }
        let size_lookup = match extract_record(source, "sizeClasses") {
            Ok(t) => t,
            Err(_) => Vec::new(),
        };
        let default_variant = variant_lookup[0].0.clone();
        let default_size = if size_lookup.len() > 0 {
            size_lookup[0].0.clone()
        } else {
            String::from_str("default")
        };
        let name = match extract_component_name(source) {
            Some(n) => n,
            None => String::from_str("Component"),
        };
        let base_classes = match extract_base_classes(source) {
            Some(b) => b,
            None => String::new(),
        };
        let disabled_classes = match extract_disabled_classes(source) {
            Some(d) => d,
            None => String::from_str(DEFAULT_DISABLED),
        };
        let observed_attributes = extract_attributes(source);
        let st = ComponentStructure {
            name,
            variant_lookup,
            size_lookup,
            base_classes,
            disabled_classes,
            default_variant,
            default_size,
            observed_attributes,
        };
        assert(st@ == structure_of(source@)->0);
        Ok(st)
    }

    /// Extract a component's structure and generate its custom element.
    pub fn transform(&self, source: &str, tag_name: &str, _ctx: &TransformContext) -> (r: Result<
        TransformedBlock,
        TransformError,
    >)
        ensures
            r is Err <==> structure_of(source@) is None,
            r matches Err(e) ==> e == TransformError::MissingVariants,
            r matches Ok(b) ==> structure_of(source@) matches Some(st) && b@ == transformed(
                tag_name@,
                st,
            ),
    {
        let structure = match self.extract_structure(source) {
            Ok(s) => s,
            Err(e) => {
                return Err(e);
            },
        };
        Ok(transform_structure(&structure, tag_name))
    }
}

/// The result of turning a component into a custom element.
#[derive(Debug, Clone)]
pub struct TransformedBlock {
    /// The custom-element module source.
    pub web_component: String,
    /// The tag it registers, such as `button-preview`.
    pub tag_name: String,
    /// Every class the component can apply, each once.
    pub classes_used: Vec<String>,
    /// The attributes the element observes.
    pub attributes: Vec<String>,
}

pub struct BlockV {
    pub web_component: Seq<char>,
    pub tag_name: Seq<char>,
    pub classes_used: Seq<Seq<char>>,
    pub attributes: Seq<Seq<char>>,
}

impl View for TransformedBlock {
    type V = BlockV;

    open spec fn view(&self) -> BlockV {
        BlockV {
            web_component: self.web_component@,
            tag_name: self.tag_name@,
            classes_used: strings_view(self.classes_used@),
            attributes: strings_view(self.attributes@),
        }
    }
}

/// Options handed to an adapter.
#[derive(Debug, Clone, Default)]
pub struct TransformContext {
    /// Import mappings, such as `@components/*` to `./src/components/*`.
    pub import_map: Vec<(String, String)>,
}

/// A front end that turns a component's source into a custom element.
pub trait FrameworkAdapter {
    /// The framework's identifier.
    fn name(&self) -> &'static str;

    /// The file extensions it handles.
    fn extensions(&self) -> &'static [&'static str];

    /// Transform a component's source into a custom element named `tag_name`.
    fn transform(&self, source: &str, tag_name: &str, ctx: &TransformContext) -> (r: Result<
        TransformedBlock,
        TransformError,
    >);
}

impl FrameworkAdapter for ReactAdapter {
    fn name(&self) -> &'static str {
        "react"
    }

    fn extensions(&self) -> &'static [&'static str] {
        &["tsx", "jsx"]
    }

    fn transform(&self, source: &str, tag_name: &str, ctx: &TransformContext) -> (r: Result<
        TransformedBlock,
        TransformError,
    >) {
        ReactAdapter::transform(self, source, tag_name, ctx)
    }
}

/// `acc` with `w` added at the end unless already present.
pub open spec fn add_unique(acc: Seq<Seq<char>>, w: Seq<char>) -> Seq<Seq<char>> {
    if acc.contains(w) {
        acc
    } else {
        acc.push(w)
    }
}

/// The white-space separated words of `t[i..]`, each added to `acc`.
pub open spec fn words_from(t: Seq<char>, i: int, acc: Seq<Seq<char>>) -> Seq<Seq<char>>
    decreases t.len() - i,
{
    let a = scan(t, i, t.len() as int, wsp());
    let e = scan(t, a, t.len() as int, non_wsp());
    if i < 0 || a < i || a >= t.len() || e <= a || e > t.len() {
        acc
    } else {
        words_from(t, e, add_unique(acc, t.subrange(a, e)))
    }
}

/// The class strings of a structure: base, each variant, each size, disabled.
pub open spec fn class_texts(st: StructV) -> Seq<Seq<char>> {
    seq![st.base] + Seq::new(st.variants.len(), |i: int| st.variants[i].1) + Seq::new(
        st.sizes.len(),
        |i: int| st.sizes[i].1,
    ) + seq![st.disabled]
}

/// The words of the first `n` texts, each once, in order of appearance.
pub open spec fn classes_in(texts: Seq<Seq<char>>, n: int) -> Seq<Seq<char>>
    decreases n,
{
    if n <= 0 {
        Seq::empty()
    } else {
        words_from(texts[n - 1], 0, classes_in(texts, n - 1))
    }
}

/// Every class a structure can apply, each once, in order of appearance.
pub open spec fn classes_of(st: StructV) -> Seq<Seq<char>> {
    classes_in(class_texts(st), class_texts(st).len() as int)
}

/// What transforming a structure to `tag` yields.
pub open spec fn transformed(tag: Seq<char>, st: StructV) -> BlockV {
    BlockV {
        web_component: crate::generator::component_js(tag, st),
        tag_name: tag,
        classes_used: classes_of(st),
        attributes: st.attrs,
    }
}

fn add_words(acc: &mut Vec<String>, text: &str)
    ensures
        strings_view(final(acc)@) == words_from(text@, 0, strings_view(old(acc)@)),
{
    let t = chars_of(text);
    let n = t.len();
    let mut i: usize = 0;
    loop
        invariant
            0 <= i <= n == t@.len(),
            t@ == text@,
            words_from(t@, i as int, strings_view(acc@)) == words_from(
                t@,
                0,
                strings_view(old(acc)@),
            ),
        decreases n - i,
    {
        let a = scan_ws(&t, i, n);
        if a >= n {
            return;
        }
        let e = crate::text::skip_non_ws_exec(&t, a, n);
        proof {
            lemma_scan(t@, i as int, n as int, wsp());
            lemma_scan(t@, a as int, n as int, non_wsp());
        }
        let ghost w = t@.subrange(a as int, e as int);
        let ghost before = strings_view(acc@);
        let mut k: usize = 0;
        let mut present = false;
        while k < acc.len() && !present
            invariant
                0 <= k <= acc@.len(),
                a <= e <= n == t@.len(),
                w == t@.subrange(a as int, e as int),
                strings_view(acc@) == before,
                !present ==> forall|j: int| 0 <= j < k ==> before[j] != w,
                present ==> before.contains(w),
            decreases acc@.len() - k + (if present {
                0int
            } else {
                1int
            }),
        {
            if range_eq(&t, a, e, acc[k].as_str()) {
                present = true;
                assert(strings_view(acc@)[k as int] == acc@[k as int]@);
                assert(before[k as int] == w);
            } else {
                assert(strings_view(acc@)[k as int] == acc@[k as int]@);
                k += 1;
            }
        }
        if !present {
            acc.push(string_from(&t, a, e));
            assert(strings_view(acc@) =~= before.push(w));
        }
        i = e;
    }
}

/// The classes a structure uses, each once, and its custom element.
pub fn transform_structure(structure: &ComponentStructure, tag_name: &str) -> (r: TransformedBlock)
    ensures
        r@ == transformed(tag_name@, structure@),
{
    let ghost texts = class_texts(structure@);
    let mut classes: Vec<String> = Vec::new();
    assert(strings_view(classes@) =~= classes_in(texts, 0));
    add_words(&mut classes, structure.base_classes.as_str());
    assert(texts[0] == structure.base_classes@);
    let mut i: usize = 0;
    while i < structure.variant_lookup.len()
        invariant
            0 <= i <= structure.variant_lookup@.len(),
            texts == class_texts(structure@),
            strings_view(classes@) == classes_in(texts, 1 + i),
        decreases structure.variant_lookup@.len() - i,
    {
        assert(texts[1 + i] == structure.variant_lookup@[i as int].1@);
        add_words(&mut classes, structure.variant_lookup[i].1.as_str());
        i += 1;
    }
    let nv = structure.variant_lookup.len();
    let mut j: usize = 0;
    while j < structure.size_lookup.len()
        invariant
            0 <= j <= structure.size_lookup@.len(),
            nv == structure.variant_lookup@.len(),
            texts == class_texts(structure@),
            strings_view(classes@) == classes_in(texts, 1 + nv + j),
        decreases structure.size_lookup@.len() - j,
    {
        assert(texts[1 + nv + j] == structure.size_lookup@[j as int].1@);
        add_words(&mut classes, structure.size_lookup[j].1.as_str());
        j += 1;
    }
    assert(texts[1 + nv + j] == structure.disabled_classes@);
    add_words(&mut classes, structure.disabled_classes.as_str());
    assert(texts.len() == 2 + nv + j);
    let web_component = generate_web_component(tag_name, structure);
    let mut attributes: Vec<String> = Vec::new();
    let mut k: usize = 0;
    while k < structure.observed_attributes.len()
        invariant
            0 <= k <= structure.observed_attributes@.len(),
            attributes@ == structure.observed_attributes@.subrange(0, k as int),
        decreases structure.observed_attributes@.len() - k,
    {
        attributes.push(structure.observed_attributes[k].clone());
        k += 1;
        assert(attributes@ =~= structure.observed_attributes@.subrange(0, k as int));
    }
    assert(attributes@ =~= structure.observed_attributes@);
    TransformedBlock {
        web_component,
        tag_name: String::from_str(tag_name),
        classes_used: classes,
        attributes,
    }
}

proof fn lemma_records_absent(s: Seq<char>, name: Seq<char>, i: int, m: Table)
    requires
        0 <= i,
        forall|j: int| 0 <= j < s.len() ==> (#[trigger] record_at(s, j) matches Some(r) ==> r.1
            != name),
    ensures
        records_from(s, name, i, m) == m,
    decreases s.len() - i,
{
    if i < s.len() {
        match record_at(s, i) {
            Some(r) => {
                if i < r.0 <= s.len() {
                    lemma_records_absent(s, name, r.0, m);
                }
            },
            None => {
                lemma_records_absent(s, name, i + 1, m);
            },
        }
    }
}

/// A source without any `variantClasses` record has no structure, so
/// extraction fails with `MissingVariants` and nothing else.
pub proof fn lemma_missing_variants(s: Seq<char>)
    requires
        forall|j: int| 0 <= j < s.len() ==> (#[trigger] record_at(s, j) matches Some(r) ==> r.1
            != "variantClasses"@),
    ensures
        structure_of(s) is None,
{
    lemma_records_absent(s, "variantClasses"@, 0, Seq::empty());
}

} // verus!
