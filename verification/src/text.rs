//! Character-level string helpers shared by the parsers.

use vstd::prelude::*;
use vstd::string::StrSliceExecFns;

verus! {

broadcast use vstd::string::group_string_axioms;

/// The characters of `s`, in order.
pub fn str_chars(s: &str) -> (v: Vec<char>)
    ensures
        v@ == s@,
{
    let mut v: Vec<char> = Vec::new();
    for c in it: s.chars()
        invariant
            v@ == it.seq().take(it.index() as int),
    {
        v.push(c);
    }
    assert(v@ =~= s@);
    v
}

/// Whether two character sequences are equal.
pub fn chars_eq(a: &[char], b: &[char]) -> (r: bool)
    ensures
        r == (a@ == b@),
{
    if a.len() != b.len() {
        return false;
    }
    let n = a.len();
    let mut i: usize = 0;
    while i < n
        invariant
            n == a@.len(),
            n == b@.len(),
            0 <= i <= n,
            forall|k: int| 0 <= k < i ==> a@[k] == b@[k],
        decreases n - i,
    {
        if a[i] != b[i] {
            return false;
        }
        i = i + 1;
    }
    assert(a@ =~= b@);
    true
}

/// Whether the characters `v` spell the string `lit`.
pub fn chars_eq_str(v: &[char], lit: &str) -> (r: bool)
    ensures
        r == (v@ == lit@),
{
    let lc = str_chars(lit);
    chars_eq(v, lc.as_slice())
}

/// Whether two strings are equal.
pub fn str_eq(a: &str, b: &str) -> (r: bool)
    ensures
        r == (a@ == b@),
{
    let ac = str_chars(a);
    let bc = str_chars(b);
    chars_eq(ac.as_slice(), bc.as_slice())
}

/// The Unicode `White_Space` property, as listed in PropList.txt.
pub open spec fn spec_is_unicode_whitespace(ch: char) -> bool {
    let c = ch as u32;
    (0x09 <= c <= 0x0D) || c == 0x20 || c == 0x85 || c == 0xA0 || c == 0x1680 || (0x2000 <= c
        <= 0x200A) || c == 0x2028 || c == 0x2029 || c == 0x202F || c == 0x205F || c == 0x3000
}

/// Whether `ch` has the Unicode `White_Space` property.
pub fn is_unicode_whitespace(ch: char) -> (b: bool)
    ensures
        b == spec_is_unicode_whitespace(ch),
{
    let c = ch as u32;
    (0x09 <= c && c <= 0x0D) || c == 0x20 || c == 0x85 || c == 0xA0 || c == 0x1680 || (0x2000 <= c
        && c <= 0x200A) || c == 0x2028 || c == 0x2029 || c == 0x202F || c == 0x205F || c == 0x3000
}

/// First index at or after `i` that is not whitespace (or the end).
pub open spec fn skip_ws_front(s: Seq<char>, i: int) -> int
    decreases s.len() - i,
{
    if 0 <= i < s.len() && spec_is_unicode_whitespace(s[i]) {
        skip_ws_front(s, i + 1)
    } else {
        i
    }
}

/// End of `s[lo..j]` once trailing whitespace is dropped.
pub open spec fn skip_ws_back(s: Seq<char>, j: int, lo: int) -> int
    decreases j - lo,
{
    if lo < j && j <= s.len() && spec_is_unicode_whitespace(s[j - 1]) {
        skip_ws_back(s, j - 1, lo)
    } else {
        j
    }
}

/// `s` without leading and trailing whitespace (what `str::trim` returns).
pub open spec fn spec_trim(s: Seq<char>) -> Seq<char> {
    let a = skip_ws_front(s, 0);
    s.subrange(a, skip_ws_back(s, s.len() as int, a))
}

proof fn lemma_skip_ws_front_range(s: Seq<char>, i: int)
    requires
        0 <= i <= s.len(),
    ensures
        i <= skip_ws_front(s, i) <= s.len(),
    decreases s.len() - i,
{
    if i < s.len() && spec_is_unicode_whitespace(s[i]) {
        lemma_skip_ws_front_range(s, i + 1);
    }
}

proof fn lemma_skip_ws_back_range(s: Seq<char>, j: int, lo: int)
    requires
        0 <= lo <= j <= s.len(),
    ensures
        lo <= skip_ws_back(s, j, lo) <= j,
    decreases j - lo,
{
    if lo < j && spec_is_unicode_whitespace(s[j - 1]) {
        lemma_skip_ws_back_range(s, j - 1, lo);
    }
}

/// Bounds `(a, b)` of the trimmed part of `v[lo..hi]`.
pub fn trim_bounds(v: &[char], lo: usize, hi: usize) -> (r: (usize, usize))
    requires
        lo <= hi <= v@.len(),
    ensures
        lo <= r.0 <= r.1 <= hi,
        v@.subrange(lo as int, hi as int).subrange(r.0 - lo, r.1 - lo) == spec_trim(
            v@.subrange(lo as int, hi as int),
        ),
{
    let ghost s = v@.subrange(lo as int, hi as int);
    let mut a: usize = lo;
    while a < hi && is_unicode_whitespace(v[a])
        invariant
            lo <= a <= hi <= v@.len(),
            s == v@.subrange(lo as int, hi as int),
            skip_ws_front(s, 0) == skip_ws_front(s, a - lo),
        decreases hi - a,
    {
        a = a + 1;
    }
    let mut b: usize = hi;
    while b > a && is_unicode_whitespace(v[b - 1])
        invariant
            lo <= a <= b <= hi <= v@.len(),
            s == v@.subrange(lo as int, hi as int),
            skip_ws_front(s, 0) == a - lo,
            skip_ws_back(s, s.len() as int, a - lo) == skip_ws_back(s, b - lo, a - lo),
        decreases b - a,
    {
        b = b - 1;
    }
    (a, b)
}

/// What `str::to_lowercase` returns for `s` (the Unicode lowercase mapping,
/// a function of the string alone).
pub uninterp spec fn unicode_lowercase(s: Seq<char>) -> Seq<char>;

/// Every character of `s` is ASCII.
pub open spec fn is_ascii_seq(s: Seq<char>) -> bool {
    forall|i: int| 0 <= i < s.len() ==> (#[trigger] s[i] as u32) < 0x80
}

/// `c` with `A`..`Z` turned into `a`..`z`.
pub open spec fn ascii_lower_char(c: char) -> char {
    if 'A' <= c <= 'Z' {
        ((c as u32) + 32) as char
    } else {
        c
    }
}

/// `s` with its ASCII capital letters lower-cased.
pub open spec fn ascii_lowercase(s: Seq<char>) -> Seq<char> {
    s.map_values(|c: char| ascii_lower_char(c))
}

/// Lower-casing ASCII text twice is lower-casing it once.
pub proof fn lemma_ascii_lowercase_idempotent(s: Seq<char>)
    ensures
        ascii_lowercase(ascii_lowercase(s)) == ascii_lowercase(s),
        is_ascii_seq(s) ==> is_ascii_seq(ascii_lowercase(s)),
{
    assert(ascii_lowercase(ascii_lowercase(s)) =~= ascii_lowercase(s));
}

/// Calls `str::to_lowercase`; the result is named by `unicode_lowercase`.
/// On ASCII text the Unicode lowercase mapping turns `A`..`Z` into
/// `a`..`z` and keeps every other character.
#[verifier::external_body]
pub(crate) fn str_to_lowercase(s: &str) -> (r: String)
    ensures
        r@ == unicode_lowercase(s@),
        is_ascii_seq(s@) ==> r@ == ascii_lowercase(s@),
{
    s.to_lowercase()
}

/// The characters `from .. to` of `s`, as a string slice.
pub fn str_slice(s: &str, from: usize, to: usize) -> (r: &str)
    requires
        from <= to <= s@.len(),
    ensures
        r@ == s@.subrange(from as int, to as int),
{
    s.substring_char(from, to)
}

/// Index of the first `sep` at or after `i`, if any.
pub open spec fn find_char(s: Seq<char>, sep: char, i: int) -> Option<int>
    decreases s.len() - i,
{
    if i < 0 || i >= s.len() {
        None
    } else if s[i] == sep {
        Some(i)
    } else {
        find_char(s, sep, i + 1)
    }
}

pub proof fn lemma_find_char_range(s: Seq<char>, sep: char, i: int)
    requires
        0 <= i,
    ensures
        find_char(s, sep, i) matches Some(k) ==> i <= k < s.len() && s[k] == sep && forall|j: int|
            i <= j < k ==> s[j] != sep,
        find_char(s, sep, i) is None ==> forall|j: int| i <= j < s.len() ==> s[j] != sep,
    decreases s.len() - i,
{
    if 0 <= i < s.len() && s[i] != sep {
        lemma_find_char_range(s, sep, i + 1);
    }
}

/// Index of the first `sep` in `v` at or after `i`.
pub fn find_char_exec(v: &[char], sep: char, i: usize) -> (r: Option<usize>)
    ensures
        r matches Some(k) ==> find_char(v@, sep, i as int) == Some(k as int),
        r is None ==> find_char(v@, sep, i as int) is None,
{
    let n = v.len();
    let mut k: usize = i;
    while k < n
        invariant
            n == v@.len(),
            i <= k,
            find_char(v@, sep, i as int) == find_char(v@, sep, k as int),
        decreases n - k,
    {
        if v[k] == sep {
            return Some(k);
        }
        k = k + 1;
    }
    None
}


/// Whether `c` is an ASCII decimal digit.
pub open spec fn is_digit(c: char) -> bool {
    '0' <= c <= '9'
}

/// Value of a run of decimal digits (most significant first).
pub open spec fn digits_value(t: Seq<char>) -> nat
    decreases t.len(),
{
    if t.len() == 0 {
        0
    } else {
        digits_value(t.drop_last()) * 10 + ((t.last() as u32) - ('0' as u32)) as nat
    }
}

/// The number that `s` spells in decimal, as Rust's unsigned integer
/// parsing reads it: an optional `+`, then one or more ASCII digits. The
/// value is not bounded here; a parse into a fixed width fails when it does
/// not fit.
pub open spec fn spec_decimal(s: Seq<char>) -> Option<nat> {
    let t = strip_plus(s);
    if all_digits(t) {
        Some(digits_value(t))
    } else {
        None
    }
}

/// `s` without one leading `+`, if it has one.
pub open spec fn strip_plus(s: Seq<char>) -> Seq<char> {
    if s.len() > 0 && s[0] == '+' { s.drop_first() } else { s }
}

/// `t` is one or more ASCII digits.
pub open spec fn all_digits(t: Seq<char>) -> bool {
    t.len() > 0 && forall|i: int| 0 <= i < t.len() ==> #[trigger] is_digit(t[i])
}

/// Parse `v[lo..hi]` as a decimal number, returning its value capped at
/// `cap`, or `None` when it is not a decimal number.
pub fn parse_decimal_capped(v: &[char], lo: usize, hi: usize, cap: u64) -> (r: Option<u64>)
    requires
        lo <= hi <= v@.len(),
        cap <= 0x1_0000_0000u64,
    ensures
        r is Some <==> spec_decimal(v@.subrange(lo as int, hi as int)) is Some,
        r matches Some(x) ==> x == if spec_decimal(v@.subrange(lo as int, hi as int))->0 < cap {
            spec_decimal(v@.subrange(lo as int, hi as int))->0
        } else {
            cap as nat
        },
{
    let ghost s = v@.subrange(lo as int, hi as int);
    let mut start = lo;
    if lo < hi && v[lo] == '+' {
        start = lo + 1;
    }
    let ghost t = v@.subrange(start as int, hi as int);
    assert(t =~= strip_plus(s));
    if start >= hi {
        return None;
    }
    let mut acc: u64 = 0;
    let mut i: usize = start;
    while i < hi
        invariant
            lo <= start <= i <= hi <= v@.len(),
            start < hi,
            t == v@.subrange(start as int, hi as int),
            s == v@.subrange(lo as int, hi as int),
            t == strip_plus(s),
            cap <= 0x1_0000_0000u64,
            acc <= cap,
            forall|k: int| 0 <= k < i - start ==> #[trigger] is_digit(t[k]),
            acc == if digits_value(t.take(i - start)) < cap { digits_value(t.take(i - start)) } else { cap as nat },
        decreases hi - i,
    {
        let c = v[i];
        if !('0' <= c && c <= '9') {
            assert(!is_digit(t[i - start]));
            return None;
        }
        let d: u64 = ((c as u32) - ('0' as u32)) as u64;
        let ghost x = digits_value(t.take(i - start));
        assert(t.take(i - start + 1).drop_last() =~= t.take(i - start));
        assert(digits_value(t.take(i - start + 1)) == x * 10 + d);
        let next: u64 = acc * 10 + d;
        acc = if next < cap { next } else { cap };
        i = i + 1;
    }
    assert(t.take(hi - start) =~= t);
    Some(acc)
}

/// A prefix of a run of digits spells no more than the whole run.
pub proof fn lemma_digits_prefix(t: Seq<char>, k: int)
    requires
        0 <= k <= t.len(),
        forall|i: int| 0 <= i < t.len() ==> #[trigger] is_digit(t[i]),
    ensures
        digits_value(t.take(k)) <= digits_value(t),
    decreases t.len() - k,
{
    if k < t.len() {
        lemma_digits_prefix(t, k + 1);
        assert(t.take(k + 1).drop_last() =~= t.take(k));
        assert(digits_value(t.take(k + 1)) == digits_value(t.take(k)) * 10 + ((t[k] as u32) - ('0' as u32)) as nat);
    } else {
        assert(t.take(k) =~= t);
    }
}

/// Parse `v[lo..hi]` as Rust parses a `u64`: `None` unless it is a decimal
/// number that fits.
pub fn parse_u64(v: &[char], lo: usize, hi: usize) -> (r: Option<u64>)
    requires
        lo <= hi <= v@.len(),
    ensures
        r == match spec_decimal(v@.subrange(lo as int, hi as int)) {
            Some(n) => if n <= u64::MAX { Some(n as u64) } else { None },
            None => None,
        },
{
    let ghost s = v@.subrange(lo as int, hi as int);
    let mut start = lo;
    if lo < hi && v[lo] == '+' {
        start = lo + 1;
    }
    let ghost t = v@.subrange(start as int, hi as int);
    assert(t =~= strip_plus(s));
    if start >= hi {
        return None;
    }
    let mut acc: u64 = 0;
    let mut i: usize = start;
    while i < hi
        invariant
            lo <= start <= i <= hi <= v@.len(),
            start < hi,
            t == v@.subrange(start as int, hi as int),
            s == v@.subrange(lo as int, hi as int),
            t == strip_plus(s),
            forall|k: int| 0 <= k < i - start ==> #[trigger] is_digit(t[k]),
            acc == digits_value(t.take(i - start)),
        decreases hi - i,
    {
        let c = v[i];
        if !('0' <= c && c <= '9') {
            assert(!is_digit(t[i - start]));
            return None;
        }
        let d: u64 = ((c as u32) - ('0' as u32)) as u64;
        assert(t.take(i - start + 1).drop_last() =~= t.take(i - start));
        assert(digits_value(t.take(i - start + 1)) == acc * 10 + d);
        if acc > (u64::MAX - d) / 10 {
            proof {
                if all_digits(t) {
                    lemma_digits_prefix(t, i - start + 1);
                }
            }
            return None;
        }
        acc = acc * 10 + d;
        i = i + 1;
    }
    assert(t.take(hi - start) =~= t);
    Some(acc)
}


/// Whether `s` begins with `p`.
pub open spec fn starts_with(s: Seq<char>, p: Seq<char>) -> bool {
    s.len() >= p.len() && s.take(p.len() as int) == p
}

/// Whether the characters `v` begin with the string `lit`; on success also
/// the number of characters of `lit`.
pub fn starts_with_lit(v: &[char], lit: &str) -> (r: Option<usize>)
    ensures
        r is Some <==> starts_with(v@, lit@),
        r matches Some(k) ==> k == lit@.len(),
{
    let lc = str_chars(lit);
    let k = lc.len();
    if v.len() < k {
        return None;
    }
    let mut i: usize = 0;
    while i < k
        invariant
            k == lc@.len(),
            lc@ == lit@,
            k <= v@.len(),
            0 <= i <= k,
            forall|j: int| 0 <= j < i ==> v@[j] == lc@[j],
        decreases k - i,
    {
        if v[i] != lc[i] {
            assert(v@.take(k as int)[i as int] != lit@[i as int]);
            return None;
        }
        i = i + 1;
    }
    assert(v@.take(k as int) =~= lit@);
    Some(k)
}

/// Start of the run of non-whitespace characters that ends at `e`.
pub open spec fn word_start(s: Seq<char>, e: int) -> int
    decreases e,
{
    if 0 < e <= s.len() && !spec_is_unicode_whitespace(s[e - 1]) {
        word_start(s, e - 1)
    } else {
        e
    }
}

/// The last whitespace-separated word of `s` (what
/// `split_whitespace().last()` yields).
pub open spec fn spec_last_word(s: Seq<char>) -> Option<Seq<char>> {
    let e = skip_ws_back(s, s.len() as int, 0);
    if e == 0 {
        None
    } else {
        Some(s.subrange(word_start(s, e), e))
    }
}

proof fn lemma_word_start_range(s: Seq<char>, e: int)
    requires
        0 <= e <= s.len(),
    ensures
        0 <= word_start(s, e) <= e,
    decreases e,
{
    if 0 < e && !spec_is_unicode_whitespace(s[e - 1]) {
        lemma_word_start_range(s, e - 1);
    }
}

/// Bounds of the last whitespace-separated word of `v`, if there is one.
pub fn last_word_bounds(v: &[char]) -> (r: Option<(usize, usize)>)
    ensures
        r is Some <==> spec_last_word(v@) is Some,
        r matches Some(b) ==> b.0 <= b.1 <= v@.len() && spec_last_word(v@) == Some(
            v@.subrange(b.0 as int, b.1 as int),
        ),
{
    let n = v.len();
    let mut e: usize = n;
    while e > 0 && is_unicode_whitespace(v[e - 1])
        invariant
            0 <= e <= n,
            n == v@.len(),
            skip_ws_back(v@, n as int, 0) == skip_ws_back(v@, e as int, 0),
        decreases e,
    {
        e = e - 1;
    }
    if e == 0 {
        return None;
    }
    let mut k: usize = e;
    while k > 0 && !is_unicode_whitespace(v[k - 1])
        invariant
            0 <= k <= e <= n,
            n == v@.len(),
            word_start(v@, e as int) == word_start(v@, k as int),
        decreases k,
    {
        k = k - 1;
    }
    Some((k, e))
}


/// The pieces of `s[i..]` between occurrences of `sep` (what `split(sep)`
/// yields; always at least one piece).
pub open spec fn split_from(s: Seq<char>, sep: char, i: int) -> Seq<Seq<char>>
    decreases s.len() - i,
    when 0 <= i <= s.len()
{
    match find_char(s, sep, i) {
        Some(k) => {
            proof {
                lemma_find_char_range(s, sep, i);
            }
            seq![s.subrange(i, k)] + split_from(s, sep, k + 1)
        },
        None => seq![s.subrange(i, s.len() as int)],
    }
}

/// The pieces of `s` between occurrences of `sep`.
pub open spec fn spec_split(s: Seq<char>, sep: char) -> Seq<Seq<char>> {
    split_from(s, sep, 0)
}

/// ASCII lowercase of one character (others unchanged).
pub open spec fn ascii_lower(c: char) -> char {
    if 'A' <= c <= 'Z' {
        ((c as u32) + 32) as char
    } else {
        c
    }
}

/// Equality up to ASCII case (`str::eq_ignore_ascii_case`).
pub open spec fn spec_eq_ignore_ascii_case(a: Seq<char>, b: Seq<char>) -> bool {
    a.len() == b.len() && forall|i: int| 0 <= i < a.len() ==> #[trigger] ascii_lower(a[i]) == ascii_lower(b[i])
}

fn ascii_lower_exec(c: char) -> (r: char)
    ensures
        r == ascii_lower(c),
{
    if 'A' <= c && c <= 'Z' {
        ((c as u8) + 32) as char
    } else {
        c
    }
}

/// Whether `a` equals `b` up to ASCII case.
pub fn eq_ignore_ascii_case(a: &str, b: &str) -> (r: bool)
    ensures
        r == spec_eq_ignore_ascii_case(a@, b@),
{
    let av = str_chars(a);
    let bv = str_chars(b);
    if av.len() != bv.len() {
        return false;
    }
    let n = av.len();
    let mut i: usize = 0;
    while i < n
        invariant
            n == av@.len(),
            n == bv@.len(),
            av@ == a@,
            bv@ == b@,
            0 <= i <= n,
            forall|k: int| 0 <= k < i ==> #[trigger] ascii_lower(av@[k]) == ascii_lower(bv@[k]),
        decreases n - i,
    {
        if ascii_lower_exec(av[i]) != ascii_lower_exec(bv[i]) {
            return false;
        }
        i = i + 1;
    }
    true
}

} // verus!
