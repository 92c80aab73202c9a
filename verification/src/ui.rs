use vstd::prelude::*;
use crate::keypad::{hex_digit, to_hex};
use crate::midi_note::{byte_of, wrap_u8};
use crate::text::{chars_of, push_char};

verus! {

/// The step grid column selected after moving the selection forward or backward: the
/// first parameter column (0) and the second one (1) are visited only when the displayed
/// instrument defines them, and the release column (3) is not entered while selecting a
/// range. `None` keeps the selection.
pub open spec fn spec_cycle_selected_column(
    selected_column: i32,
    forward: bool,
    param0_defined: bool,
    param1_defined: bool,
    in_selection_mode: bool,
) -> Option<i32> {
    if forward {
        if selected_column == 0 && param1_defined {
            Some(1)
        } else if 0 <= selected_column <= 1 {
            Some(2)
        } else if selected_column == 2 && !in_selection_mode {
            Some(3)
        } else {
            None
        }
    } else {
        if selected_column == 3 {
            Some(2)
        } else if selected_column == 2 && param1_defined {
            Some(1)
        } else if param0_defined {
            Some(0)
        } else {
            None
        }
    }
}

/// The column to select when the user moves the step grid selection (see
/// `spec_cycle_selected_column`).
pub fn cycle_selected_column(
    selected_column: i32,
    forward: bool,
    param0_defined: bool,
    param1_defined: bool,
    in_selection_mode: bool,
) -> (r: Option<i32>)
    ensures
        r == spec_cycle_selected_column(selected_column, forward, param0_defined, param1_defined, in_selection_mode),
{
    if forward {
        match selected_column {
            0 if param1_defined => Some(1),
            0..=1 => Some(2),
            2 if !in_selection_mode => Some(3),
            _ => None,
        }
    } else {
        match selected_column {
            3 => Some(2),
            2 if param1_defined => Some(1),
            _ if param0_defined => Some(0),
            _ => None,
        }
    }
}

/// The first song pattern that the song list shows in its sixteen rows: the selected one
/// is scrolled to the middle, but the list never scrolls past its last eight patterns.
pub open spec fn spec_song_list_scroll(selected: int, count: int) -> int {
    let target = if count > 8 {
        if selected < count - 8 { selected } else { count - 8 }
    } else {
        selected
    };
    if target > 8 { target - 8 } else { 0 }
}

/// The first song pattern that the song list shows (see `spec_song_list_scroll`).
pub fn song_list_scroll(selected: usize, count: usize) -> (r: usize)
    ensures
        r == spec_song_list_scroll(selected as int, count as int),
{
    let target = if count > 8 {
        if selected < count - 8 { selected } else { count - 8 }
    } else {
        selected
    };
    if target > 8 { target - 8 } else { 0 }
}

/// The two capital hexadecimal digits of the low byte of `i`, as the user interface shows
/// byte values.
pub fn hex_text(i: i32) -> (r: String)
    ensures
        r@ == seq![hex_digit(wrap_u8(i as int) / 16) as char, hex_digit(wrap_u8(i as int) % 16) as char],
{
    let b = byte_of(i);
    let d = to_hex(b);
    let mut s = String::new();
    push_char(&mut s, d[0] as char);
    push_char(&mut s, d[1] as char);
    s
}

/// The number of bytes that a character takes in UTF-8.
pub open spec fn char_width(c: char) -> int {
    if (c as u32) < 0x80 {
        1
    } else if (c as u32) < 0x800 {
        2
    } else if (c as u32) < 0x10000 {
        3
    } else {
        4
    }
}

/// The number of bytes that a text takes in UTF-8.
pub open spec fn utf8_len(s: Seq<char>) -> int
    decreases s.len(),
{
    if s.len() == 0 {
        0
    } else {
        utf8_len(s.drop_last()) + char_width(s.last())
    }
}

/// The largest log text, in bytes, kept before a new line is added.
pub const MAX_LOG_BYTES: usize = 10000;

/// The position of the first line feed at or after `i`, or the length.
pub open spec fn newline_from(s: Seq<char>, i: int) -> int
    decreases s.len() - i,
{
    if i >= s.len() || i < 0 {
        s.len() as int
    } else if s[i] == '\n' {
        i
    } else {
        newline_from(s, i + 1)
    }
}

/// The log text without its oldest lines, dropped one by one while it is over
/// `MAX_LOG_BYTES` bytes and still has a line feed.
pub open spec fn trimmed_log(s: Seq<char>) -> Seq<char>
    decreases s.len(),
{
    let nl = newline_from(s, 0);
    if utf8_len(s) > MAX_LOG_BYTES && nl < s.len() && nl >= 0 {
        trimmed_log(s.skip(nl + 1))
    } else {
        s
    }
}

/// The text of the log window.
pub struct LogWindow {
    pub log_text: String,
}

proof fn lemma_newline_from_bounds(s: Seq<char>, i: int)
    requires
        0 <= i,
    ensures
        i <= newline_from(s, i) <= s.len() || (i > s.len() && newline_from(s, i) == s.len()),
        newline_from(s, i) < s.len() ==> s[newline_from(s, i)] == '\n',
        forall|j: int| i <= j < newline_from(s, i) ==> s[j] != '\n',
    decreases s.len() - i,
{
    if i < s.len() && s[i] != '\n' {
        lemma_newline_from_bounds(s, i + 1);
    }
}

proof fn lemma_utf8_len_skip(s: Seq<char>, k: int)
    requires
        0 <= k <= s.len(),
    ensures
        utf8_len(s) == utf8_len(s.take(k)) + utf8_len(s.skip(k)),
        utf8_len(s.skip(k)) >= 0,
    decreases s.len(),
{
    if s.len() > 0 && k < s.len() {
        lemma_utf8_len_skip(s.drop_last(), k);
        assert(s.drop_last().take(k) =~= s.take(k));
        assert(s.skip(k).drop_last() =~= s.drop_last().skip(k));
        assert(s.skip(k).last() == s.last());
    } else if k == s.len() {
        assert(s.take(k) =~= s);
        assert(s.skip(k) =~= Seq::<char>::empty());
    } else {
        assert(s.take(k) =~= s);
        assert(s.skip(k) =~= Seq::<char>::empty());
    }
    lemma_utf8_len_nonneg(s.skip(k));
}

proof fn lemma_utf8_len_nonneg(s: Seq<char>)
    ensures
        utf8_len(s) >= 0,
    decreases s.len(),
{
    if s.len() > 0 {
        lemma_utf8_len_nonneg(s.drop_last());
    }
}

/// The UTF-8 width of a character.
fn char_width_of(c: char) -> (r: usize)
    ensures
        r == char_width(c),
{
    let u = c as u32;
    if u < 0x80 {
        1
    } else if u < 0x800 {
        2
    } else if u < 0x10000 {
        3
    } else {
        4
    }
}

impl LogWindow {
    pub fn new() -> (r: LogWindow)
        ensures
            r.log_text@ == Seq::<char>::empty(),
    {
        LogWindow { log_text: String::new() }
    }

    /// Adds a line to the log, first dropping the oldest lines while the log is over
    /// `MAX_LOG_BYTES` bytes (see `trimmed_log`).
    pub fn update_log_text(&mut self, new_text: &str)
        ensures
            final(self).log_text@ == trimmed_log(old(self).log_text@) + new_text@ + seq!['\n'],
    {
        let chars = chars_of(self.log_text.as_str());
        let ghost s = chars@;
        let n = chars.len();
        let mut total: u128 = 0;
        let mut i: usize = 0;
        while i < n
            invariant
                i <= n,
                n == s.len(),
                s == chars@,
                total == utf8_len(s.take(i as int)),
                total <= 4 * i,
            decreases n - i,
        {
            assert(s.take(i + 1).drop_last() =~= s.take(i as int));
            total = total + char_width_of(chars[i]) as u128;
            i = i + 1;
        }
        assert(s.take(n as int) =~= s);
        let mut start: usize = 0;
        let mut rest: u128 = total;
        proof {
            assert(s.skip(0) =~= s);
        }
        let mut done = false;
        while !done && rest > MAX_LOG_BYTES as u128
            invariant
                start <= n,
                n == s.len(),
                s == chars@,
                rest == utf8_len(s.skip(start as int)),
                trimmed_log(s) == trimmed_log(s.skip(start as int)),
                done ==> newline_from(s.skip(start as int), 0) == s.skip(start as int).len(),
            decreases n - start, if done { 0int } else { 1int },
        {
            let ghost t = s.skip(start as int);
            let mut j = start;
            while j < n && chars[j] != '\n'
                invariant
                    start <= j <= n,
                    n == s.len(),
                    s == chars@,
                    forall|q: int| start <= q < j ==> s[q] != '\n',
                decreases n - j,
            {
                j = j + 1;
            }
            proof {
                lemma_newline_from_bounds(t, 0);
                assert forall|q: int| 0 <= q < j - start implies t[q] != '\n' by {
                    assert(t[q] == s[start + q]);
                }
                if j < n {
                    assert(t[j - start] == '\n');
                    assert(newline_from(t, 0) == j - start) by {
                        if newline_from(t, 0) < j - start {
                            assert(t[newline_from(t, 0)] == '\n');
                        }
                    }
                } else {
                    assert(newline_from(t, 0) == t.len()) by {
                        if newline_from(t, 0) < t.len() {
                            assert(t[newline_from(t, 0)] == '\n');
                        }
                    }
                }
            }
            if j >= n {
                done = true;
                continue;
            }
            proof {
                assert(t.skip(j - start + 1) =~= s.skip(j + 1));
                lemma_utf8_len_skip(t, j - start + 1);
            }
            let mut dropped: u128 = 0;
            let mut q = start;
            while q <= j
                invariant
                    start <= q <= j + 1,
                    j < n,
                    n == s.len(),
                    s == chars@,
                    dropped == utf8_len(s.skip(start as int).take(q - start)),
                    dropped <= rest,
                    rest == utf8_len(s.skip(start as int)),
                decreases j + 1 - q,
            {
                proof {
                    let tt = s.skip(start as int);
                    assert(tt.take(q - start + 1).drop_last() =~= tt.take(q - start));
                    assert(tt.take(q - start + 1).last() == s[q as int]);
                    lemma_utf8_len_skip(tt, q - start + 1);
                    lemma_utf8_len_nonneg(tt.skip(q - start + 1));
                }
                dropped = dropped + char_width_of(chars[q]) as u128;
                q = q + 1;
            }
            proof {
                let tt = s.skip(start as int);
                assert(tt.take(j + 1 - start) =~= tt.take(j - start + 1));
                lemma_utf8_len_skip(tt, j - start + 1);
                assert(trimmed_log(tt) == trimmed_log(tt.skip(j - start + 1)));
            }
            rest = rest - dropped;
            start = j + 1;
        }
        proof {
            let t = s.skip(start as int);
            if rest > MAX_LOG_BYTES {
                // left the loop at a text without a line feed
            }
            assert(trimmed_log(t) == t) by {
                lemma_newline_from_bounds(t, 0);
            }
        }
        let mut out = String::new();
        let mut k = start;
        while k < n
            invariant
                start <= k <= n,
                n == s.len(),
                s == chars@,
                out@ == s.subrange(start as int, k as int),
            decreases n - k,
        {
            push_char(&mut out, chars[k]);
            assert(s.subrange(start as int, k + 1) =~= s.subrange(start as int, k as int).push(s[k as int]));
            k = k + 1;
        }
        let nt = chars_of(new_text);
        let mut k: usize = 0;
        let ghost base = out@;
        while k < nt.len()
            invariant
                k <= nt@.len(),
                out@ == base + nt@.take(k as int),
            decreases nt@.len() - k,
        {
            push_char(&mut out, nt[k]);
            assert(nt@.take(k + 1) =~= nt@.take(k as int).push(nt@[k as int]));
            k = k + 1;
        }
        assert(nt@.take(nt@.len() as int) =~= new_text@);
        push_char(&mut out, '\n');
        assert(s.subrange(start as int, n as int) =~= s.skip(start as int));
        self.log_text = out;
    }
}

/// What stays of the log before a new line is added is at most `MAX_LOG_BYTES` bytes,
/// unless it is a single line.
pub proof fn lemma_trimmed_log_bounded(s: Seq<char>)
    ensures
        utf8_len(trimmed_log(s)) <= MAX_LOG_BYTES || newline_from(trimmed_log(s), 0) == trimmed_log(s).len(),
    decreases s.len(),
{
    lemma_newline_from_bounds(s, 0);
    let nl = newline_from(s, 0);
    if utf8_len(s) > MAX_LOG_BYTES && nl < s.len() && nl >= 0 {
        lemma_trimmed_log_bounded(s.skip(nl + 1));
    } else if utf8_len(s) > MAX_LOG_BYTES {
        assert(nl == s.len());
    }
}

} // verus!
