//! Character-level helpers shared by the parsers and generators.
//!
//! Everything here works on the `Seq<char>` view of strings, so that the
//! contracts of the scanners can be stated over plain sequences.
use vstd::prelude::*;
use vstd::std_specs::iter::IteratorSpec;
use vstd::string::{StrSliceExecFns, StringExecFns};

verus! {

/// Unicode `White_Space`, the class that `char::is_whitespace`, `str::trim`
/// and `split_whitespace` go by.
pub open spec fn is_ws(c: char) -> bool {
    let u = c as u32;
    (0x09 <= u && u <= 0x0D) || u == 0x20 || u == 0x85 || u == 0xA0 || u == 0x1680 || (0x2000
        <= u && u <= 0x200A) || u == 0x2028 || u == 0x2029 || u == 0x202F || u == 0x205F || u
        == 0x3000
}

pub fn ws(c: char) -> (r: bool)
    ensures
        r == is_ws(c),
{
    let u = c as u32;
    (0x09 <= u && u <= 0x0D) || u == 0x20 || u == 0x85 || u == 0xA0 || u == 0x1680 || (0x2000
        <= u && u <= 0x200A) || u == 0x2028 || u == 0x2029 || u == 0x202F || u == 0x205F || u
        == 0x3000
}

pub open spec fn is_upper(c: char) -> bool {
    0x41 <= c as u32 && c as u32 <= 0x5A
}

pub open spec fn is_lower(c: char) -> bool {
    0x61 <= c as u32 && c as u32 <= 0x7A
}

pub open spec fn is_digit(c: char) -> bool {
    0x30 <= c as u32 && c as u32 <= 0x39
}

pub open spec fn is_letter(c: char) -> bool {
    is_upper(c) || is_lower(c)
}

/// `[a-zA-Z0-9]`
pub open spec fn is_ascii_alnum(c: char) -> bool {
    is_letter(c) || is_digit(c)
}

pub fn upper(c: char) -> (r: bool)
    ensures
        r == is_upper(c),
{
    0x41 <= c as u32 && c as u32 <= 0x5A
}

pub fn letter(c: char) -> (r: bool)
    ensures
        r == is_letter(c),
{
    let u = c as u32;
    (0x41 <= u && u <= 0x5A) || (0x61 <= u && u <= 0x7A)
}

pub fn ascii_alnum(c: char) -> (r: bool)
    ensures
        r == is_ascii_alnum(c),
{
    let u = c as u32;
    (0x41 <= u && u <= 0x5A) || (0x61 <= u && u <= 0x7A) || (0x30 <= u && u <= 0x39)
}

/// `c` equals the lower-case ASCII character `k`, ignoring ASCII case.
pub open spec fn ci_eq(c: char, k: char) -> bool {
    c == k || (is_lower(k) && c as u32 + 32 == k as u32)
}

pub fn ci_eq_exec(c: char, k: char) -> (r: bool)
    ensures
        r == ci_eq(c, k),
{
    c == k || (0x61 <= k as u32 && k as u32 <= 0x7A && c as u32 + 32 == k as u32)
}

/// Result of `char::is_alphanumeric`.
pub uninterp spec fn alnum(c: char) -> bool;

/// Relies on `char::is_alphanumeric`: the Unicode `Alphabetic` or `Numeric`
/// property of the character.
#[verifier::external_body]
pub fn is_alnum(c: char) -> (r: bool)
    ensures
        r == alnum(c),
{
    c.is_alphanumeric()
}

/// Result of `str::to_lowercase`.
pub uninterp spec fn lower_of(s: Seq<char>) -> Seq<char>;

/// Relies on `str::to_lowercase`: the result depends on the characters alone.
#[verifier::external_body]
pub fn to_lower(s: &str) -> (r: String)
    ensures
        r@ == lower_of(s@),
        s@.len() == 0 ==> r@.len() == 0,
{
    s.to_lowercase()
}

/// Result of `char::to_uppercase`, collected into a string.
pub uninterp spec fn upper_of(c: char) -> Seq<char>;

/// Relies on `char::to_uppercase`: the upper-case mapping of one character.
#[verifier::external_body]
pub fn char_upper(c: char) -> (r: String)
    ensures
        r@ == upper_of(c),
{
    c.to_uppercase().collect()
}

/// Relies on `String::push`: appends one character.
#[verifier::external_body]
pub fn push_char(s: &mut String, c: char)
    ensures
        final(s)@ == old(s)@.push(c),
{
    s.push(c);
}

/// The characters of `s`, in order.
pub fn chars_of(s: &str) -> (r: Vec<char>)
    ensures
        r@ == s@,
{
    let n = s.unicode_len();
    let mut it = s.chars();
    let mut out: Vec<char> = Vec::new();
    while out.len() < n
        invariant
            out@ + it.remaining() == s@,
            it.obeys_prophetic_iter_laws(),
            n == s@.len(),
        decreases n - out@.len(),
    {
        match it.next() {
            Some(c) => {
                out.push(c);
            },
            None => {},
        }
    }
    assert(out@ =~= s@);
    out
}

/// A string holding the characters `v[from..to]`.
pub fn string_from(v: &Vec<char>, from: usize, to: usize) -> (r: String)
    requires
        from <= to <= v@.len(),
    ensures
        r@ == v@.subrange(from as int, to as int),
{
    let mut s = String::new();
    let mut i = from;
    while i < to
        invariant
            from <= i <= to <= v@.len(),
            s@ == v@.subrange(from as int, i as int),
        decreases to - i,
    {
        push_char(&mut s, v[i]);
        i += 1;
        assert(s@ =~= v@.subrange(from as int, i as int));
    }
    s
}

/// Appends the characters `v[from..to]` to `s`.
pub fn push_range(s: &mut String, v: &Vec<char>, from: usize, to: usize)
    requires
        from <= to <= v@.len(),
    ensures
        final(s)@ == old(s)@ + v@.subrange(from as int, to as int),
{
    let mut i = from;
    while i < to
        invariant
            from <= i <= to <= v@.len(),
            s@ == old(s)@ + v@.subrange(from as int, i as int),
        decreases to - i,
    {
        push_char(s, v[i]);
        i += 1;
        assert(s@ =~= old(s)@ + v@.subrange(from as int, i as int));
    }
}

/// `pat` occurs in `s` at position `i`.
pub open spec fn at(s: Seq<char>, i: int, pat: Seq<char>) -> bool {
    0 <= i && i + pat.len() <= s.len() && s.subrange(i, i + pat.len()) == pat
}

pub fn at_exec(s: &Vec<char>, i: usize, pat: &str) -> (r: bool)
    ensures
        r == at(s@, i as int, pat@),
{
    let p = chars_of(pat);
    if p.len() > s.len() || i > s.len() - p.len() {
        return false;
    }
    let mut k: usize = 0;
    while k < p.len()
        invariant
            0 <= k <= p@.len(),
            i + p@.len() <= s@.len(),
            s@.len() <= usize::MAX,
            p@ == pat@,
            forall|j: int| 0 <= j < k ==> s@[i + j] == p@[j],
        decreases p@.len() - k,
    {
        if s[i + k] != p[k] {
            assert(s@.subrange(i as int, i + p@.len())[k as int] != pat@[k as int]);
            return false;
        }
        k += 1;
    }
    assert(s@.subrange(i as int, i + p@.len()) =~= pat@);
    true
}

/// `pat` occurs in `s` at `i`, ignoring ASCII case; `pat` is lower case.
pub open spec fn at_ci(s: Seq<char>, i: int, pat: Seq<char>) -> bool {
    0 <= i && i + pat.len() <= s.len() && forall|j: int|
        0 <= j < pat.len() ==> #[trigger] ci_eq(s[i + j], pat[j])
}

pub fn at_ci_exec(s: &Vec<char>, i: usize, pat: &str) -> (r: bool)
    ensures
        r == at_ci(s@, i as int, pat@),
{
    let p = chars_of(pat);
    if p.len() > s.len() || i > s.len() - p.len() {
        return false;
    }
    let mut k: usize = 0;
    while k < p.len()
        invariant
            0 <= k <= p@.len(),
            i + p@.len() <= s@.len(),
            s@.len() <= usize::MAX,
            p@ == pat@,
            forall|j: int| 0 <= j < k ==> #[trigger] ci_eq(s@[i + j], p@[j]),
        decreases p@.len() - k,
    {
        if !ci_eq_exec(s[i + k], p[k]) {
            return false;
        }
        k += 1;
    }
    true
}

/// `pat` occurs somewhere in `s`, ignoring ASCII case.
pub open spec fn contains_ci(s: Seq<char>, pat: Seq<char>) -> bool {
    exists|i: int| 0 <= i <= s.len() && #[trigger] at_ci(s, i, pat)
}

pub fn contains_ci_exec(s: &Vec<char>, pat: &str) -> (r: bool)
    ensures
        r == contains_ci(s@, pat@),
{
    let n = s.len();
    let mut i: usize = 0;
    loop
        invariant
            0 <= i <= n == s@.len(),
            forall|j: int| 0 <= j < i ==> !#[trigger] at_ci(s@, j, pat@),
        decreases n - i,
    {
        if at_ci_exec(s, i, pat) {
            return true;
        }
        if i == n {
            assert forall|j: int| 0 <= j <= s@.len() implies !#[trigger] at_ci(s@, j, pat@) by {
                if j < i {
                }
            }
            return false;
        }
        i += 1;
    }
}

pub open spec fn wsp() -> spec_fn(char) -> bool {
    |c: char| is_ws(c)
}

pub open spec fn non_wsp() -> spec_fn(char) -> bool {
    |c: char| !is_ws(c)
}

/// End of the run of characters satisfying `p` that starts at `from`, not
/// going past `hi`.
pub open spec fn scan(s: Seq<char>, from: int, hi: int, p: spec_fn(char) -> bool) -> int
    decreases hi - from,
{
    if from < 0 || from >= hi || from >= s.len() || !p(s[from]) {
        from
    } else {
        scan(s, from + 1, hi, p)
    }
}

pub proof fn lemma_scan(s: Seq<char>, from: int, hi: int, p: spec_fn(char) -> bool)
    requires
        0 <= from <= hi <= s.len(),
    ensures
        from <= scan(s, from, hi, p) <= hi,
        forall|j: int| from <= j < scan(s, from, hi, p) ==> p(#[trigger] s[j]),
        scan(s, from, hi, p) < hi ==> !p(s[scan(s, from, hi, p)]),
    decreases hi - from,
{
    if from < hi && p(s[from]) {
        lemma_scan(s, from + 1, hi, p);
    }
}

/// Index of the first character at or after `from` that is not white space.
pub open spec fn skip_ws(s: Seq<char>, from: int) -> int {
    scan(s, from, s.len() as int, wsp())
}

pub fn skip_ws_exec(s: &Vec<char>, from: usize) -> (r: usize)
    requires
        from <= s@.len(),
    ensures
        r == skip_ws(s@, from as int),
        from <= r <= s@.len(),
{
    proof {
        lemma_scan(s@, from as int, s@.len() as int, wsp());
    }
    let mut i = from;
    while i < s.len() && ws(s[i])
        invariant
            from <= i <= s@.len(),
            scan(s@, i as int, s@.len() as int, wsp()) == skip_ws(s@, from as int),
        decreases s@.len() - i,
    {
        i += 1;
    }
    i
}

/// Index of the first white space character at or after `from`, or `hi`.
pub fn skip_non_ws_exec(s: &Vec<char>, from: usize, hi: usize) -> (r: usize)
    requires
        from <= hi <= s@.len(),
    ensures
        r == scan(s@, from as int, hi as int, non_wsp()),
        from <= r <= hi,
{
    proof {
        lemma_scan(s@, from as int, hi as int, non_wsp());
    }
    let mut i = from;
    while i < hi && !ws(s[i])
        invariant
            from <= i <= hi <= s@.len(),
            scan(s@, i as int, hi as int, non_wsp()) == scan(s@, from as int, hi as int, non_wsp()),
        decreases hi - i,
    {
        i += 1;
    }
    i
}

/// End of `s[lo..hi]` once the trailing characters satisfying `p` are removed.
pub open spec fn trim_end_by(s: Seq<char>, lo: int, hi: int, p: spec_fn(char) -> bool) -> int
    decreases hi - lo,
{
    if lo < hi && p(s[hi - 1]) {
        trim_end_by(s, lo, hi - 1, p)
    } else {
        hi
    }
}

pub proof fn lemma_trim_end(s: Seq<char>, lo: int, hi: int, p: spec_fn(char) -> bool)
    requires
        0 <= lo <= hi <= s.len(),
    ensures
        lo <= trim_end_by(s, lo, hi, p) <= hi,
        forall|j: int| trim_end_by(s, lo, hi, p) <= j < hi ==> p(#[trigger] s[j]),
        lo < trim_end_by(s, lo, hi, p) ==> !p(s[trim_end_by(s, lo, hi, p) - 1]),
    decreases hi - lo,
{
    if lo < hi && p(s[hi - 1]) {
        lemma_trim_end(s, lo, hi - 1, p);
    }
}

/// `s[lo..hi]` with the characters satisfying `p` removed at both ends.
pub open spec fn trimmed_by(s: Seq<char>, lo: int, hi: int, p: spec_fn(char) -> bool) -> Seq<
    char,
> {
    let a = scan(s, lo, hi, p);
    s.subrange(a, trim_end_by(s, a, hi, p))
}

/// `s[lo..hi]` with white space trimmed at both ends (`str::trim`).
pub open spec fn trimmed(s: Seq<char>, lo: int, hi: int) -> Seq<char> {
    trimmed_by(s, lo, hi, wsp())
}

/// Bounds `(a, b)` of `s[lo..hi]` trimmed.
pub fn trim_range(s: &Vec<char>, lo: usize, hi: usize) -> (r: (usize, usize))
    requires
        lo <= hi <= s@.len(),
    ensures
        r.0 == scan(s@, lo as int, hi as int, wsp()),
        r.1 == trim_end_by(s@, r.0 as int, hi as int, wsp()),
        lo <= r.0 <= r.1 <= hi,
        s@.subrange(r.0 as int, r.1 as int) == trimmed(s@, lo as int, hi as int),
{
    proof {
        lemma_scan(s@, lo as int, hi as int, wsp());
    }
    let mut a = lo;
    while a < hi && ws(s[a])
        invariant
            lo <= a <= hi <= s@.len(),
            scan(s@, a as int, hi as int, wsp()) == scan(s@, lo as int, hi as int, wsp()),
        decreases hi - a,
    {
        a += 1;
    }
    proof {
        lemma_trim_end(s@, a as int, hi as int, wsp());
    }
    let mut b = hi;
    while a < b && ws(s[b - 1])
        invariant
            lo <= a <= b <= hi <= s@.len(),
            a == scan(s@, lo as int, hi as int, wsp()),
            trim_end_by(s@, a as int, b as int, wsp()) == trim_end_by(
                s@,
                a as int,
                hi as int,
                wsp(),
            ),
        decreases b - a,
    {
        b -= 1;
    }
    (a, b)
}

/// Appends a string slice.
pub fn push_str(s: &mut String, t: &str)
    ensures
        final(s)@ == old(s)@ + t@,
{
    s.append(t);
}

/// Least position `i >= from` at which `pat` occurs in `s`.
pub open spec fn find_from(s: Seq<char>, pat: Seq<char>, from: int) -> Option<int>
    decreases s.len() + 1 - from,
{
    if from < 0 || from + pat.len() > s.len() {
        None
    } else if at(s, from, pat) {
        Some(from)
    } else {
        find_from(s, pat, from + 1)
    }
}

pub proof fn lemma_find_from(s: Seq<char>, pat: Seq<char>, from: int)
    requires
        0 <= from,
    ensures
        find_from(s, pat, from) matches Some(i) ==> from <= i && i + pat.len() <= s.len() && at(
            s,
            i,
            pat,
        ) && forall|j: int| from <= j < i ==> !#[trigger] at(s, j, pat),
        find_from(s, pat, from) is None ==> forall|j: int| from <= j ==> !#[trigger] at(s, j, pat),
    decreases s.len() + 1 - from,
{
    if from + pat.len() > s.len() {
    } else if at(s, from, pat) {
    } else {
        lemma_find_from(s, pat, from + 1);
    }
}

pub fn find_exec(s: &Vec<char>, pat: &str, from: usize) -> (r: Option<usize>)
    ensures
        r matches Some(i) ==> find_from(s@, pat@, from as int) == Some(i as int),
        r is None ==> find_from(s@, pat@, from as int) is None,
{
    let p = chars_of(pat);
    if p.len() > s.len() {
        return None;
    }
    let last = s.len() - p.len();
    let mut i = from;
    loop
        invariant
            from <= i,
            last + p@.len() == s@.len(),
            p@ == pat@,
            find_from(s@, pat@, i as int) == find_from(s@, pat@, from as int),
        decreases last + 1 - i,
    {
        if i > last {
            return None;
        }
        if at_exec(s, i, pat) {
            return Some(i);
        }
        if i == last {
            assert(find_from(s@, pat@, i + 1) is None);
            return None;
        }
        i += 1;
    }
}

pub open spec fn digit_char(d: int) -> char {
    if d == 0 {
        '0'
    } else if d == 1 {
        '1'
    } else if d == 2 {
        '2'
    } else if d == 3 {
        '3'
    } else if d == 4 {
        '4'
    } else if d == 5 {
        '5'
    } else if d == 6 {
        '6'
    } else if d == 7 {
        '7'
    } else if d == 8 {
        '8'
    } else {
        '9'
    }
}

/// Decimal digits of `n`.
pub open spec fn decimal(n: nat) -> Seq<char>
    decreases n,
{
    if n < 10 {
        seq![digit_char(n as int)]
    } else {
        decimal(n / 10).push(digit_char((n % 10) as int))
    }
}

fn digit_exec(d: usize) -> (r: char)
    requires
        d < 10,
    ensures
        r == digit_char(d as int),
{
    match d {
        0 => '0',
        1 => '1',
        2 => '2',
        3 => '3',
        4 => '4',
        5 => '5',
        6 => '6',
        7 => '7',
        8 => '8',
        _ => '9',
    }
}

/// Appends the decimal digits of `n`.
pub fn push_decimal(s: &mut String, n: usize)
    ensures
        final(s)@ == old(s)@ + decimal(n as nat),
    decreases n,
{
    if n < 10 {
        push_char(s, digit_exec(n));
        assert(s@ =~= old(s)@ + decimal(n as nat));
    } else {
        push_decimal(s, n / 10);
        push_char(s, digit_exec(n % 10));
        assert(s@ =~= old(s)@ + decimal(n as nat));
    }
}

pub open spec fn not_char(x: char) -> spec_fn(char) -> bool {
    |c: char| c != x
}

/// Index of the first `x` in `v[from..hi]`, or `hi`.
pub fn scan_until(v: &Vec<char>, from: usize, hi: usize, x: char) -> (r: usize)
    requires
        from <= hi <= v@.len(),
    ensures
        r == scan(v@, from as int, hi as int, not_char(x)),
        from <= r <= hi,
{
    proof {
        lemma_scan(v@, from as int, hi as int, not_char(x));
    }
    let mut e = from;
    while e < hi && v[e] != x
        invariant
            from <= e <= hi <= v@.len(),
            scan(v@, e as int, hi as int, not_char(x)) == scan(
                v@,
                from as int,
                hi as int,
                not_char(x),
            ),
        decreases hi - e,
    {
        e += 1;
    }
    e
}

/// Index of the first non-white-space character in `v[from..hi]`, or `hi`.
pub fn scan_ws(v: &Vec<char>, from: usize, hi: usize) -> (r: usize)
    requires
        from <= hi <= v@.len(),
    ensures
        r == scan(v@, from as int, hi as int, wsp()),
        from <= r <= hi,
{
    proof {
        lemma_scan(v@, from as int, hi as int, wsp());
    }
    let mut j = from;
    while j < hi && ws(v[j])
        invariant
            from <= j <= hi <= v@.len(),
            scan(v@, j as int, hi as int, wsp()) == scan(v@, from as int, hi as int, wsp()),
        decreases hi - j,
    {
        j += 1;
    }
    j
}

/// A word character: `_` or alphanumeric.
pub open spec fn is_word(c: char) -> bool {
    c == '_' || alnum(c)
}

pub open spec fn word_p() -> spec_fn(char) -> bool {
    |c: char| is_word(c)
}

/// End of the run of word characters in `v[from..hi]`.
pub fn scan_word(v: &Vec<char>, from: usize, hi: usize) -> (r: usize)
    requires
        from <= hi <= v@.len(),
    ensures
        r == scan(v@, from as int, hi as int, word_p()),
        from <= r <= hi,
{
    proof {
        lemma_scan(v@, from as int, hi as int, word_p());
    }
    let mut j = from;
    while j < hi && (v[j] == '_' || is_alnum(v[j]))
        invariant
            from <= j <= hi <= v@.len(),
            scan(v@, j as int, hi as int, word_p()) == scan(v@, from as int, hi as int, word_p()),
        decreases hi - j,
    {
        j += 1;
    }
    j
}

/// The two strings hold the same characters.
pub fn str_eq(a: &str, b: &str) -> (r: bool)
    ensures
        r == (a@ == b@),
{
    let x = chars_of(a);
    let y = chars_of(b);
    if x.len() != y.len() {
        return false;
    }
    let mut i: usize = 0;
    while i < x.len()
        invariant
            0 <= i <= x@.len() == y@.len(),
            x@ == a@,
            y@ == b@,
            forall|j: int| 0 <= j < i ==> x@[j] == y@[j],
        decreases x@.len() - i,
    {
        if x[i] != y[i] {
            assert(x@[i as int] != y@[i as int]);
            return false;
        }
        i += 1;
    }
    assert(x@ =~= y@);
    true
}

/// `v[lo..hi]` holds the same characters as `b`.
pub fn range_eq(v: &Vec<char>, lo: usize, hi: usize, b: &str) -> (r: bool)
    requires
        lo <= hi <= v@.len(),
    ensures
        r == (v@.subrange(lo as int, hi as int) == b@),
{
    let y = chars_of(b);
    if hi - lo != y.len() {
        return false;
    }
    let mut i: usize = 0;
    while i < y.len()
        invariant
            0 <= i <= y@.len() == hi - lo,
            hi <= v@.len(),
            forall|j: int| 0 <= j < i ==> v@[lo + j] == y@[j],
            y@ == b@,
        decreases y@.len() - i,
    {
        if v[lo + i] != y[i] {
            assert(v@.subrange(lo as int, hi as int)[i as int] != y@[i as int]);
            return false;
        }
        i += 1;
    }
    assert(v@.subrange(lo as int, hi as int) =~= y@);
    true
}

/// The runs of characters satisfying `keep` among the first `n` of `t`,
/// joined by `sep`.
pub open spec fn collapse(t: Seq<char>, n: int, keep: spec_fn(char) -> bool, sep: char) -> Seq<
    char,
>
    decreases n,
{
    if n <= 0 {
        Seq::empty()
    } else {
        let c = t[n - 1];
        let prev = collapse(t, n - 1, keep, sep);
        if !keep(c) {
            prev
        } else if prev.len() > 0 && !keep(t[n - 2]) {
            prev + seq![sep, c]
        } else {
            prev + seq![c]
        }
    }
}

} // verus!
