//! Text selection, search state, and word-boundary detection.

use vstd::prelude::*;
use crate::text::{is_unicode_whitespace, spec_is_unicode_whitespace};

verus! {

#[verifier::external_type_specification]
#[verifier::external_body]
pub struct ExInstant(std::time::Instant);

/// Calls `std::time::Instant::now`; nothing is promised of the moment returned.
#[verifier::external_body]
fn instant_now() -> std::time::Instant {
    std::time::Instant::now()
}

/// Calls `std::time::Instant::duration_since`; the span depends on the clock
/// and nothing is promised of it.
#[verifier::external_body]
fn instant_duration_since(later: &std::time::Instant, earlier: &std::time::Instant) -> std::time::Duration {
    later.duration_since(*earlier)
}

/// Calls `std::time::Duration::as_millis`; the whole milliseconds of a span
/// that Verus cannot see into, so nothing is promised of the number.
#[verifier::external_body]
fn duration_as_millis(d: &std::time::Duration) -> u128 {
    d.as_millis()
}

/// Two clicks at the same cell closer together than this many milliseconds
/// count as one multi-click.
pub const MULTI_CLICK_MS: u128 = 300;

/// Text selection and click state.
pub struct SelectionState {
    pub start: Option<(u16, u16)>,
    pub end: Option<(u16, u16)>,
    pub active: bool,
    pub last_click_time: Option<std::time::Instant>,
    pub last_click_pos: (u16, u16),
    pub click_count: u32,
}

impl Default for SelectionState {
    fn default() -> (s: Self)
        ensures
            s.start is None,
            s.end is None,
            !s.active,
            s.last_click_time is None,
            s.last_click_pos == (0u16, 0u16),
            s.click_count == 0,
    {
        SelectionState {
            start: None,
            end: None,
            active: false,
            last_click_time: None,
            last_click_pos: (0, 0),
            click_count: 0,
        }
    }
}

/// Reading order on grid positions `(col, row)`: row first, then column.
pub open spec fn pos_le(a: (u16, u16), b: (u16, u16)) -> bool {
    a.1 < b.1 || (a.1 == b.1 && a.0 <= b.0)
}

/// The pair `(a, b)` put in reading order.
pub open spec fn spec_normalize(a: (u16, u16), b: (u16, u16)) -> ((u16, u16), (u16, u16)) {
    if pos_le(a, b) { (a, b) } else { (b, a) }
}

/// Whether the cell at `(row, col)` lies inside the selection from `start`
/// to `end` (both `(col, row)`, already in reading order).
pub open spec fn spec_cell_in_selection(row: u16, col: u16, start: (u16, u16), end: (u16, u16)) -> bool {
    let (sc, sr) = start;
    let (ec, er) = end;
    if sr == er {
        row == sr && sc <= col <= ec
    } else if row == sr {
        col >= sc
    } else if row == er {
        col <= ec
    } else {
        sr < row < er
    }
}

impl SelectionState {
    /// Return the normalized (start <= end) selection range, if both endpoints
    /// are set.
    pub fn normalized_range(&self) -> (r: Option<((u16, u16), (u16, u16))>)
        ensures
            r == (match (self.start, self.end) {
                (Some(s), Some(e)) => Some(spec_normalize(s, e)),
                _ => None,
            }),
    {
        match (self.start, self.end) {
            (Some(s), Some(e)) => Some(normalize_selection_range(s, e)),
            _ => None,
        }
    }

    /// Clear the current selection, returning whether any clearing occurred.
    pub fn clear(&mut self) -> (cleared: bool)
        ensures
            cleared == (old(self).start is Some || old(self).end is Some),
            cleared ==> final(self).start is None && final(self).end is None && !final(self).active,
            !cleared ==> *final(self) == *old(self),
            final(self).last_click_time == old(self).last_click_time,
            final(self).last_click_pos == old(self).last_click_pos,
            final(self).click_count == old(self).click_count,
    {
        if self.start.is_some() || self.end.is_some() {
            self.start = None;
            self.end = None;
            self.active = false;
            true
        } else {
            false
        }
    }

    /// Select an entire line.
    pub fn select_line(&mut self, row: u16, term_cols: u16)
        ensures
            final(self).start == Some((0u16, row)),
            final(self).end == Some((if term_cols == 0 { 0u16 } else { (term_cols - 1) as u16 }, row)),
            final(self).active == old(self).active,
            final(self).last_click_time == old(self).last_click_time,
            final(self).last_click_pos == old(self).last_click_pos,
            final(self).click_count == old(self).click_count,
    {
        self.start = Some((0, row));
        self.end = Some((term_cols.saturating_sub(1), row));
    }

    /// Register a click at `(col, row)`, given how many milliseconds have
    /// passed since the previous click (`None` when there was none), and
    /// stamp the click with `now`.
    ///
    /// Returns the click count after this click (1 = single, 2 = double,
    /// 3+ = triple).
    pub fn register_click_at(
        &mut self,
        col: u16,
        row: u16,
        now: std::time::Instant,
        since_last_ms: Option<u128>,
    ) -> (count: u32)
        requires
            is_multi_click(since_last_ms, old(self).last_click_pos, col, row) ==> old(self).click_count < u32::MAX,
        ensures
            count == final(self).click_count,
            count == if is_multi_click(since_last_ms, old(self).last_click_pos, col, row) {
                (old(self).click_count + 1) as u32
            } else {
                1u32
            },
            final(self).last_click_time == Some(now),
            final(self).last_click_pos == (col, row),
            final(self).start == old(self).start,
            final(self).end == old(self).end,
            final(self).active == old(self).active,
    {
        let is_multi = match since_last_ms {
            Some(ms) => ms < MULTI_CLICK_MS && col == self.last_click_pos.0 && row == self.last_click_pos.1,
            None => false,
        };
        if is_multi {
            self.click_count = self.click_count + 1;
        } else {
            self.click_count = 1;
        }
        self.last_click_time = Some(now);
        self.last_click_pos = (col, row);
        self.click_count
    }

    /// Register a click at `(col, row)` at the current time and update
    /// multi-click detection.
    ///
    /// Returns the click count after this click (1 = single, 2 = double,
    /// 3+ = triple).
    pub fn register_click(&mut self, col: u16, row: u16) -> (count: u32)
        requires
            old(self).last_click_time is Some && old(self).last_click_pos == (col, row) ==> old(self).click_count
                < u32::MAX,
        ensures
            count == final(self).click_count,
            count == 1 || count == old(self).click_count + 1,
            (old(self).last_click_time is None || old(self).last_click_pos != (col, row)) ==> count == 1,
            final(self).last_click_time is Some,
            final(self).last_click_pos == (col, row),
            final(self).start == old(self).start,
            final(self).end == old(self).end,
            final(self).active == old(self).active,
    {
        let now = instant_now();
        let since = match &self.last_click_time {
            Some(last) => {
                let d = instant_duration_since(&now, last);
                Some(duration_as_millis(&d))
            },
            None => None,
        };
        self.register_click_at(col, row, now, since)
    }
}

/// Whether a click at `(col, row)`, `since_last_ms` after the previous click
/// at `last_pos`, continues a multi-click.
pub open spec fn is_multi_click(since_last_ms: Option<u128>, last_pos: (u16, u16), col: u16, row: u16) -> bool {
    match since_last_ms {
        Some(ms) => ms < MULTI_CLICK_MS && last_pos == (col, row),
        None => false,
    }
}


/// A search match position in the terminal grid.
#[derive(Debug, Clone, Copy, PartialEq, Eq, Structural)]
pub struct SearchMatch {
    pub row: u16,
    pub start_col: u16,
    pub end_col: u16,
}

/// Scrollback search state.
pub struct SearchState {
    pub active: bool,
    pub query: String,
    /// Byte offset of the cursor within `query` (always on a char boundary).
    pub cursor_pos: usize,
    /// Cached lowercased query (updated when `query` changes).
    pub query_lower: String,
    pub matches: Vec<SearchMatch>,
    pub current_match: usize,
    /// Reusable buffer for row text extraction (avoids per-call allocation).
    pub row_texts: Vec<String>,
}

impl Default for SearchState {
    fn default() -> (s: Self)
        ensures
            !s.active,
            s.query@.len() == 0,
            s.cursor_pos == 0,
            s.query_lower@.len() == 0,
            s.matches@.len() == 0,
            s.current_match == 0,
            s.row_texts@.len() == 0,
    {
        SearchState {
            active: false,
            query: String::new(),
            cursor_pos: 0,
            query_lower: String::new(),
            matches: Vec::new(),
            current_match: 0,
            row_texts: Vec::new(),
        }
    }
}

/// The match index that navigation moves to from `cur` among `n > 0` matches.
pub open spec fn spec_navigate_target(cur: int, n: int, forward: bool) -> int {
    if forward {
        (cur + 1) % n
    } else if cur == 0 {
        n - 1
    } else {
        cur - 1
    }
}

impl SearchState {
    /// Navigate to the next or previous match. Returns `true` if the current
    /// match index changed.
    pub fn navigate(&mut self, forward: bool) -> (changed: bool)
        requires
            old(self).matches@.len() > 0 && forward ==> old(self).current_match < usize::MAX,
        ensures
            old(self).matches@.len() == 0 ==> !changed && *final(self) == *old(self),
            old(self).matches@.len() > 0 ==> final(self).current_match == spec_navigate_target(
                old(self).current_match as int,
                old(self).matches@.len() as int,
                forward,
            ),
            changed == (final(self).current_match != old(self).current_match),
            final(self).matches == old(self).matches,
            final(self).active == old(self).active,
            final(self).query == old(self).query,
            final(self).cursor_pos == old(self).cursor_pos,
            final(self).query_lower == old(self).query_lower,
            final(self).row_texts == old(self).row_texts,
    {
        let n = self.matches.len();
        if n == 0 {
            return false;
        }
        let old_idx = self.current_match;
        if forward {
            self.current_match = (self.current_match + 1) % n;
        } else if self.current_match == 0 {
            self.current_match = n - 1;
        } else {
            self.current_match = self.current_match - 1;
        }
        self.current_match != old_idx
    }
}

/// Normalize a selection range so that `start` is before `end` in
/// reading order (row-major, then column).
pub fn normalize_selection_range(start: (u16, u16), end: (u16, u16)) -> (r: ((u16, u16), (u16, u16)))
    ensures
        r == spec_normalize(start, end),
        pos_le(r.0, r.1),
        (r.0 == start && r.1 == end) || (r.0 == end && r.1 == start),
{
    if start.1 < end.1 || (start.1 == end.1 && start.0 <= end.0) {
        (start, end)
    } else {
        (end, start)
    }
}

/// Check whether a cell at `(row, col)` falls within the normalized selection
/// from `start` to `end`.
///
/// Both `start` and `end` must already be in normalized order (i.e.
/// `start` is before `end` in reading order).
pub fn cell_in_selection(row: u16, col: u16, start: (u16, u16), end: (u16, u16)) -> (r: bool)
    ensures
        r == spec_cell_in_selection(row, col, start, end),
{
    let (sc, sr) = start;
    let (ec, er) = end;
    if sr == er {
        row == sr && col >= sc && col <= ec
    } else if row == sr {
        col >= sc
    } else if row == er {
        col <= ec
    } else {
        row > sr && row < er
    }
}

/// ASCII letters and digits.
pub open spec fn is_ascii_alnum(ch: char) -> bool {
    ('a' <= ch <= 'z') || ('A' <= ch <= 'Z') || ('0' <= ch <= '9')
}

/// Characters that extend a word besides alphanumerics.
pub open spec fn is_word_punct(ch: char) -> bool {
    ch == '_' || ch == '-' || ch == '.' || ch == '/'
}

/// Character class of `ch` for word selection, ASCII rules.
pub open spec fn spec_char_class(ch: char) -> u8 {
    if is_ascii_alnum(ch) || is_word_punct(ch) {
        0
    } else if ch == ' ' || ch == '\t' || ch == '\n' || ch == '\r' {
        1
    } else {
        2
    }
}

/// Character class for word-boundary detection.
///
/// - 0 = word character (alphanumeric, `_`, `-`, `.`, `/`)
/// - 1 = whitespace
/// - 2 = punctuation / other
pub fn char_class(ch: char) -> (c: u8)
    ensures
        c == spec_char_class(ch),
{
    if ('a' <= ch && ch <= 'z') || ('A' <= ch && ch <= 'Z') || ('0' <= ch && ch <= '9') || ch == '_'
        || ch == '-' || ch == '.' || ch == '/' {
        0
    } else if ch == ' ' || ch == '\t' || ch == '\n' || ch == '\r' {
        1
    } else {
        2
    }
}

/// What `char::is_alphanumeric` answers for `ch` (Unicode Alphabetic or
/// Numeric property).
pub uninterp spec fn unicode_alphanumeric(ch: char) -> bool;

/// Calls `char::is_alphanumeric`: the answer is named by
/// `unicode_alphanumeric`, a function of the character alone. Among the
/// ASCII characters the Alphabetic and Numeric ones are exactly the
/// letters and digits.
#[verifier::external_body]
fn char_is_alphanumeric(ch: char) -> (b: bool)
    ensures
        b == unicode_alphanumeric(ch),
        (ch as u32) < 0x80 ==> (b <==> is_ascii_alnum(ch)),
{
    ch.is_alphanumeric()
}

/// Character class of `ch` for word selection, Unicode rules.
pub open spec fn spec_char_class_unicode(ch: char) -> u8 {
    if unicode_alphanumeric(ch) || is_word_punct(ch) {
        0
    } else if spec_is_unicode_whitespace(ch) {
        1
    } else {
        2
    }
}

/// Extended char-class that also handles Unicode alphanumerics.
pub fn char_class_unicode(ch: char) -> (c: u8)
    ensures
        c == spec_char_class_unicode(ch),
        (ch as u32) < 0x80 && ch != '\x0B' && ch != '\x0C' ==> c == spec_char_class(ch),
{
    if char_is_alphanumeric(ch) || ch == '_' || ch == '-' || ch == '.' || ch == '/' {
        0
    } else if is_unicode_whitespace(ch) {
        1
    } else {
        2
    }
}

/// Index of the first entry whose column is at least `col`, scanning from
/// `i`; the last index when there is none.
pub open spec fn first_at_or_after(s: Seq<(u16, char)>, col: u16, i: int) -> int
    decreases s.len() - i,
{
    if i >= s.len() {
        s.len() - 1
    } else if s[i].0 >= col {
        i
    } else {
        first_at_or_after(s, col, i + 1)
    }
}

/// Start of the run of class-`target` characters that ends at index `k`.
pub open spec fn run_start(s: Seq<(u16, char)>, k: int, target: u8) -> int
    decreases k,
{
    if k > 0 && spec_char_class_unicode(s[k - 1].1) == target {
        run_start(s, k - 1, target)
    } else {
        k
    }
}

/// End of the run of class-`target` characters that starts at index `k`.
pub open spec fn run_end(s: Seq<(u16, char)>, k: int, target: u8) -> int
    decreases s.len() - k,
{
    if 0 <= k && k + 1 < s.len() && spec_char_class_unicode(s[k + 1].1) == target {
        run_end(s, k + 1, target)
    } else {
        k
    }
}

/// The word (first and last column) that `word_boundaries` selects.
pub open spec fn spec_word_boundaries(s: Seq<(u16, char)>, col: u16) -> (u16, u16) {
    if s.len() == 0 {
        (col, col)
    } else {
        let idx = first_at_or_after(s, col, 0);
        let t = spec_char_class_unicode(s[idx].1);
        (s[run_start(s, idx, t)].0, s[run_end(s, idx, t)].0)
    }
}

proof fn lemma_first_at_or_after_range(s: Seq<(u16, char)>, col: u16, i: int)
    requires
        s.len() > 0,
        0 <= i,
    ensures
        0 <= first_at_or_after(s, col, i) < s.len(),
        i <= s.len() - 1 ==> i <= first_at_or_after(s, col, i),
    decreases s.len() - i,
{
    if i < s.len() && s[i].0 < col {
        lemma_first_at_or_after_range(s, col, i + 1);
    }
}

proof fn lemma_run_start_range(s: Seq<(u16, char)>, k: int, target: u8)
    requires
        0 <= k,
    ensures
        0 <= run_start(s, k, target) <= k,
    decreases k,
{
    if k > 0 && spec_char_class_unicode(s[k - 1].1) == target {
        lemma_run_start_range(s, k - 1, target);
    }
}

proof fn lemma_run_end_range(s: Seq<(u16, char)>, k: int, target: u8)
    requires
        0 <= k < s.len(),
    ensures
        k <= run_end(s, k, target) < s.len(),
    decreases s.len() - k,
{
    if k + 1 < s.len() && spec_char_class_unicode(s[k + 1].1) == target {
        lemma_run_end_range(s, k + 1, target);
    }
}

/// Find word boundaries around `col` in a sorted list of `(column, char)` pairs.
///
/// Returns `(start_col, end_col)` for the word that contains or is nearest to
/// `col`.
pub fn word_boundaries(row_chars: &[(u16, char)], col: u16) -> (r: (u16, u16))
    ensures
        r == spec_word_boundaries(row_chars@, col),
{
    let n = row_chars.len();
    if n == 0 {
        return (col, col);
    }
    let ghost s = row_chars@;
    let mut idx: usize = 0;
    while idx < n && row_chars[idx].0 < col
        invariant
            n == s.len(),
            s == row_chars@,
            0 <= idx <= n,
            first_at_or_after(s, col, 0) == first_at_or_after(s, col, idx as int),
        decreases n - idx,
    {
        idx = idx + 1;
    }
    if idx == n {
        idx = n - 1;
    }
    proof {
        lemma_first_at_or_after_range(s, col, 0);
    }
    let target = char_class_unicode(row_chars[idx].1);
    assert(idx == first_at_or_after(s, col, 0));

    let mut start_idx: usize = idx;
    while start_idx > 0
        invariant
            n == s.len(),
            s == row_chars@,
            0 <= start_idx <= idx < n,
            run_start(s, start_idx as int, target) == run_start(s, idx as int, target),
        ensures
            0 <= start_idx <= idx,
            run_start(s, idx as int, target) == start_idx,
        decreases start_idx,
    {
        let prev = start_idx - 1;
        if char_class_unicode(row_chars[prev].1) == target {
            start_idx = prev;
        } else {
            break;
        }
    }

    let mut end_idx: usize = idx;
    while end_idx + 1 < n
        invariant
            n == s.len(),
            s == row_chars@,
            0 <= idx <= end_idx < n,
            run_end(s, end_idx as int, target) == run_end(s, idx as int, target),
        ensures
            idx <= end_idx < n,
            run_end(s, idx as int, target) == end_idx,
        decreases n - end_idx,
    {
        let next = end_idx + 1;
        if char_class_unicode(row_chars[next].1) == target {
            end_idx = next;
        } else {
            break;
        }
    }
    (row_chars[start_idx].0, row_chars[end_idx].0)
}


/// Normalizing a selection does not depend on which endpoint was dragged
/// first, and normalizing an already normalized range changes nothing.
pub proof fn law_normalize_symmetric_idempotent(a: (u16, u16), b: (u16, u16))
    ensures
        spec_normalize(a, b) == spec_normalize(b, a),
        spec_normalize(spec_normalize(a, b).0, spec_normalize(a, b).1) == spec_normalize(a, b),
{
}

/// For a normalized range, a cell is selected exactly when it lies between
/// the start and the end in reading order.
pub proof fn law_cell_in_selection_is_reading_order_interval(
    row: u16,
    col: u16,
    start: (u16, u16),
    end: (u16, u16),
)
    requires
        pos_le(start, end),
    ensures
        spec_cell_in_selection(row, col, start, end) <==> (pos_le(start, (col, row)) && pos_le(
            (col, row),
            end,
        )),
{
}

/// Moving to the next match and then to the previous one returns to the
/// match one started from (and the other way round).
pub proof fn law_navigate_round_trip(cur: int, n: int)
    requires
        0 <= cur < n,
    ensures
        spec_navigate_target(spec_navigate_target(cur, n, true), n, false) == cur,
        spec_navigate_target(spec_navigate_target(cur, n, false), n, true) == cur,
{
    if cur + 1 < n {
        vstd::arithmetic::div_mod::lemma_small_mod((cur + 1) as nat, n as nat);
    } else {
        vstd::arithmetic::div_mod::lemma_mod_self_0(n);
    }
    if cur == 0 {
        vstd::arithmetic::div_mod::lemma_mod_self_0(n);
    } else {
        vstd::arithmetic::div_mod::lemma_small_mod(cur as nat, n as nat);
    }
}

/// The selected word always contains the clicked (or nearest) character:
/// its first column is no later and its last column no earlier.
pub proof fn law_word_boundaries_contain_click(s: Seq<(u16, char)>, col: u16)
    requires
        s.len() > 0,
    ensures
        ({
            let idx = first_at_or_after(s, col, 0);
            let t = spec_char_class_unicode(s[idx].1);
            &&& 0 <= run_start(s, idx, t) <= idx <= run_end(s, idx, t) < s.len()
            &&& spec_word_boundaries(s, col) == (s[run_start(s, idx, t)].0, s[run_end(s, idx, t)].0)
        }),
{
    lemma_first_at_or_after_range(s, col, 0);
    let idx = first_at_or_after(s, col, 0);
    let t = spec_char_class_unicode(s[idx].1);
    lemma_run_start_range(s, idx, t);
    lemma_run_end_range(s, idx, t);
}

proof fn lemma_run_start_uniform(s: Seq<(u16, char)>, k: int, target: u8)
    requires
        0 <= k < s.len(),
        spec_char_class_unicode(s[k].1) == target,
    ensures
        forall|j: int| run_start(s, k, target) <= j <= k ==> spec_char_class_unicode(#[trigger] s[j].1) == target,
        run_start(s, k, target) > 0 ==> spec_char_class_unicode(s[run_start(s, k, target) - 1].1) != target,
    decreases k,
{
    if k > 0 && spec_char_class_unicode(s[k - 1].1) == target {
        lemma_run_start_uniform(s, k - 1, target);
    }
}

proof fn lemma_run_end_uniform(s: Seq<(u16, char)>, k: int, target: u8)
    requires
        0 <= k < s.len(),
        spec_char_class_unicode(s[k].1) == target,
    ensures
        forall|j: int| k <= j <= run_end(s, k, target) ==> spec_char_class_unicode(#[trigger] s[j].1) == target,
        run_end(s, k, target) + 1 < s.len() ==> spec_char_class_unicode(s[run_end(s, k, target) + 1].1) != target,
    decreases s.len() - k,
{
    if k + 1 < s.len() && spec_char_class_unicode(s[k + 1].1) == target {
        lemma_run_end_uniform(s, k + 1, target);
    }
}

/// The selected word is one whole run of a single character class: every
/// character from its first to its last index has the class of the clicked
/// (or nearest) character, and the characters just outside it, if any, do
/// not.
pub proof fn law_word_is_maximal_run(s: Seq<(u16, char)>, col: u16)
    requires
        s.len() > 0,
    ensures
        ({
            let idx = first_at_or_after(s, col, 0);
            let t = spec_char_class_unicode(s[idx].1);
            let a = run_start(s, idx, t);
            let b = run_end(s, idx, t);
            &&& forall|j: int| a <= j <= b ==> spec_char_class_unicode(#[trigger] s[j].1) == t
            &&& a > 0 ==> spec_char_class_unicode(s[a - 1].1) != t
            &&& b + 1 < s.len() ==> spec_char_class_unicode(s[b + 1].1) != t
        }),
{
    lemma_first_at_or_after_range(s, col, 0);
    let idx = first_at_or_after(s, col, 0);
    let t = spec_char_class_unicode(s[idx].1);
    lemma_run_start_uniform(s, idx, t);
    lemma_run_end_uniform(s, idx, t);
    let a = run_start(s, idx, t);
    let b = run_end(s, idx, t);
    assert forall|j: int| a <= j <= b implies spec_char_class_unicode(#[trigger] s[j].1) == t by {
        if j <= idx {
        } else {
        }
    }
}

} // verus!
