use vstd::prelude::*;

verus! {

/// Appends one character to a string (`String::push`).
#[verifier::external_body]
pub fn push_char(s: &mut String, c: char)
    ensures
        final(s)@ == old(s)@.push(c),
{
    s.push(c)
}

/// Builds a string holding exactly the given characters.
pub fn string_from_chars(chars: &Vec<char>) -> (s: String)
    ensures
        s@ == chars@,
{
    let mut s = String::new();
    let mut i: usize = 0;
    while i < chars.len()
        invariant
            i <= chars.len(),
            s@ == chars@.subrange(0, i as int),
        decreases chars.len() - i,
    {
        push_char(&mut s, chars[i]);
        assert(chars@.subrange(0, i + 1) =~= chars@.subrange(0, i as int).push(chars@[i as int]));
        i = i + 1;
    }
    assert(chars@.subrange(0, chars@.len() as int) =~= chars@);
    s
}

/// The characters of a string slice, in order.
pub fn chars_of(s: &str) -> (v: Vec<char>)
    ensures
        v@ == s@,
{
    let n = s.unicode_len();
    let mut v: Vec<char> = Vec::new();
    let mut i: usize = 0;
    while i < n
        invariant
            n == s@.len(),
            i <= n,
            v@ == s@.subrange(0, i as int),
        decreases n - i,
    {
        let c = s.get_char(i);
        v.push(c);
        assert(s@.subrange(0, i + 1) =~= s@.subrange(0, i as int).push(c));
        i = i + 1;
    }
    assert(s@.subrange(0, n as int) =~= s@);
    v
}

/// Whether a character has the Unicode `White_Space` property (`char::is_whitespace`).
pub open spec fn is_space(c: char) -> bool {
    ||| c == ' '
    ||| ('\u{9}' <= c && c <= '\u{d}')
    ||| c == '\u{85}'
    ||| c == '\u{a0}'
    ||| c == '\u{1680}'
    ||| ('\u{2000}' <= c && c <= '\u{200a}')
    ||| c == '\u{2028}'
    ||| c == '\u{2029}'
    ||| c == '\u{202f}'
    ||| c == '\u{205f}'
    ||| c == '\u{3000}'
}

/// Whether a character has the Unicode `White_Space` property.
pub fn is_space_char(c: char) -> (r: bool)
    ensures
        r == is_space(c),
{
    c == ' ' || ('\u{9}' <= c && c <= '\u{d}') || c == '\u{85}' || c == '\u{a0}' || c == '\u{1680}'
        || ('\u{2000}' <= c && c <= '\u{200a}') || c == '\u{2028}' || c == '\u{2029}' || c == '\u{202f}'
        || c == '\u{205f}' || c == '\u{3000}'
}

/// The number of leading white space characters.
pub open spec fn leading_space(s: Seq<char>) -> int
    decreases s.len(),
{
    if s.len() > 0 && is_space(s[0]) {
        1 + leading_space(s.drop_first())
    } else {
        0
    }
}

/// The number of trailing white space characters.
pub open spec fn trailing_space(s: Seq<char>) -> int
    decreases s.len(),
{
    if s.len() > 0 && is_space(s.last()) {
        1 + trailing_space(s.drop_last())
    } else {
        0
    }
}

/// `s` without leading and trailing white space (`str::trim`).
pub open spec fn trimmed(s: Seq<char>) -> Seq<char> {
    let a = leading_space(s);
    if a == s.len() {
        Seq::empty()
    } else {
        s.subrange(a, s.len() - trailing_space(s))
    }
}

proof fn lemma_leading_space(s: Seq<char>, i: int)
    requires
        0 <= i <= s.len(),
        forall|j: int| 0 <= j < i ==> is_space(#[trigger] s[j]),
    ensures
        leading_space(s) == i + leading_space(s.subrange(i, s.len() as int)),
        0 <= leading_space(s) <= s.len(),
    decreases i,
{
    lemma_space_count_bounds(s);
    if i > 0 {
        assert(s.drop_first().subrange(i - 1, s.drop_first().len() as int) =~= s.subrange(i, s.len() as int));
        lemma_leading_space(s.drop_first(), i - 1);
    } else {
        assert(s.subrange(0, s.len() as int) =~= s);
    }
}

proof fn lemma_space_count_bounds(s: Seq<char>)
    ensures
        0 <= leading_space(s) <= s.len(),
        0 <= trailing_space(s) <= s.len(),
        leading_space(s) < s.len() ==> !is_space(s[leading_space(s)]),
        trailing_space(s) < s.len() ==> !is_space(s[s.len() - 1 - trailing_space(s)]),
        forall|j: int| 0 <= j < leading_space(s) ==> is_space(#[trigger] s[j]),
        forall|j: int| s.len() - trailing_space(s) <= j < s.len() ==> is_space(#[trigger] s[j]),
    decreases s.len(),
{
    if s.len() > 0 {
        lemma_space_count_bounds(s.drop_first());
        lemma_space_count_bounds(s.drop_last());
        if is_space(s[0]) {
            assert forall|j: int| 0 <= j < leading_space(s) implies is_space(#[trigger] s[j]) by {
                if j > 0 {
                    assert(s[j] == s.drop_first()[j - 1]);
                }
            }
        }
        if is_space(s.last()) {
            assert forall|j: int| s.len() - trailing_space(s) <= j < s.len() implies is_space(#[trigger] s[j]) by {
                if j < s.len() - 1 {
                    assert(s[j] == s.drop_last()[j]);
                }
            }
        }
    }
}

/// The characters of `s` without leading and trailing white space.
pub fn trim_chars(s: &Vec<char>) -> (r: Vec<char>)
    ensures
        r@ == trimmed(s@),
{
    proof {
        lemma_space_count_bounds(s@);
    }
    let n = s.len();
    let mut a: usize = 0;
    while a < n && is_space_char(s[a])
        invariant
            a <= n,
            n == s@.len(),
            a <= leading_space(s@),
            forall|j: int| 0 <= j < a ==> is_space(#[trigger] s@[j]),
            0 <= leading_space(s@) <= s@.len(),
            leading_space(s@) < s@.len() ==> !is_space(s@[leading_space(s@)]),
        decreases n - a,
    {
        a = a + 1;
    }
    let mut r: Vec<char> = Vec::new();
    if a == n {
        return r;
    }
    let mut b: usize = n;
    while b > a && is_space_char(s[b - 1])
        invariant
            a < b <= n || b == a,
            a < n,
            a == leading_space(s@),
            n == s@.len(),
            n - b <= trailing_space(s@),
            forall|j: int| b <= j < n ==> is_space(#[trigger] s@[j]),
            0 <= trailing_space(s@) <= s@.len(),
            trailing_space(s@) < s@.len() ==> !is_space(s@[s@.len() - 1 - trailing_space(s@)]),
            !is_space(s@[a as int]),
        decreases b,
    {
        b = b - 1;
    }
    let mut i = a;
    while i < b
        invariant
            a <= i <= b <= n,
            n == s@.len(),
            r@ == s@.subrange(a as int, i as int),
        decreases b - i,
    {
        r.push(s[i]);
        i = i + 1;
    }
    assert(b == n - trailing_space(s@)) by {
        if n - b < trailing_space(s@) {
            assert(b > a);
            assert(is_space(s@[b - 1]));
        }
    }
    r
}

/// The value of a sequence of decimal digits.
pub open spec fn digits_value(s: Seq<char>) -> int
    decreases s.len(),
{
    if s.len() == 0 {
        0
    } else {
        digits_value(s.drop_last()) * 10 + (s.last() as int - 48)
    }
}

pub open spec fn is_digit(c: char) -> bool {
    '0' <= c && c <= '9'
}

/// A non-empty sequence of decimal digits.
pub open spec fn all_digits(s: Seq<char>) -> bool {
    s.len() > 0 && forall|i: int| 0 <= i < s.len() ==> is_digit(#[trigger] s[i])
}

/// The integer that a string denotes in the way `str::parse` reads integers: an optional
/// `+`, or `-` where negative values are allowed, then decimal digits.
pub open spec fn spec_parse_int(s: Seq<char>, signed: bool) -> Option<int> {
    if s.len() > 0 && s[0] == '+' && all_digits(s.drop_first()) {
        Some(digits_value(s.drop_first()))
    } else if signed && s.len() > 0 && s[0] == '-' && all_digits(s.drop_first()) {
        Some(-digits_value(s.drop_first()))
    } else if all_digits(s) {
        Some(digits_value(s))
    } else {
        None
    }
}

/// The integer that a string denotes, if it lies within `min..=max`.
pub open spec fn spec_parse_in_range(s: Seq<char>, signed: bool, min: int, max: int) -> Option<int> {
    match spec_parse_int(s, signed) {
        Some(v) => if min <= v <= max {
            Some(v)
        } else {
            None
        },
        None => None,
    }
}

proof fn lemma_digits_value_monotone(s: Seq<char>, i: int)
    requires
        0 <= i <= s.len(),
        forall|j: int| 0 <= j < s.len() ==> is_digit(#[trigger] s[j]),
    ensures
        0 <= digits_value(s.take(i)) <= digits_value(s),
    decreases s.len() - i,
{
    if i < s.len() {
        lemma_digits_value_monotone(s, i + 1);
        assert(s.take(i + 1).drop_last() =~= s.take(i));
        assert(is_digit(s[i]));
    } else {
        assert(s.take(i) =~= s);
        lemma_digits_value_nonneg(s);
    }
}

proof fn lemma_digits_value_nonneg(s: Seq<char>)
    requires
        forall|j: int| 0 <= j < s.len() ==> is_digit(#[trigger] s[j]),
    ensures
        digits_value(s) >= 0,
    decreases s.len(),
{
    if s.len() > 0 {
        lemma_digits_value_nonneg(s.drop_last());
        assert(is_digit(s[s.len() - 1]));
    }
}

/// The value of the digits `s[start..]` if they are all digits, there is at least one,
/// and the value is at most `max`.
fn digits_up_to(s: &Vec<char>, start: usize, max: u64) -> (r: Option<u64>)
    requires
        start <= s@.len(),
    ensures
        ({
            let t = s@.subrange(start as int, s@.len() as int);
            &&& (r is Some) == (all_digits(t) && digits_value(t) <= max)
            &&& r matches Some(v) ==> v as int == digits_value(t)
        }),
{
    let ghost t = s@.subrange(start as int, s@.len() as int);
    if start >= s.len() {
        return None;
    }
    let mut acc: u64 = 0;
    let mut i = start;
    while i < s.len()
        invariant
            start <= i <= s@.len(),
            t == s@.subrange(start as int, s@.len() as int),
            forall|j: int| 0 <= j < i - start ==> is_digit(#[trigger] t[j]),
            acc == digits_value(t.take(i - start)),
            acc <= max,
        decreases s@.len() - i,
    {
        let c = s[i];
        assert(c == t[i - start]);
        if !('0' <= c && c <= '9') {
            return None;
        }
        let d = (c as u32 - 48) as u64;
        assert(t.take(i - start + 1).drop_last() =~= t.take(i - start));
        if d > max || acc > (max - d) / 10 {
            proof {
                assert(acc * 10 + d > max) by (nonlinear_arith)
                    requires
                        d > max || acc > (max - d) / 10,
                        acc >= 0,
                ;
                assert forall|j: int| 0 <= j < t.len() implies is_digit(#[trigger] t[j]) || !all_digits(t) by {
                }
                if all_digits(t) {
                    lemma_digits_value_monotone(t, i - start + 1);
                }
            }
            return None;
        }
        proof {
            assert(acc * 10 + d <= max) by (nonlinear_arith)
                requires
                    acc <= (max - d) / 10,
                    d <= max,
            ;
        }
        acc = acc * 10 + d;
        i = i + 1;
    }
    assert(t.take(t.len() as int) =~= t);
    Some(acc)
}

/// Reads an integer in the way `str::parse` does (see `spec_parse_int`), within
/// `-neg_max..=max`.
pub fn parse_int(s: &Vec<char>, neg_max: u64, max: u64) -> (r: Option<(bool, u64)>)
    ensures
        match r {
            Some((neg, v)) => spec_parse_in_range(s@, neg_max > 0, -(neg_max as int), max as int) == Some(
                if neg { -(v as int) } else { v as int },
            ) && (neg ==> v > 0),
            None => spec_parse_in_range(s@, neg_max > 0, -(neg_max as int), max as int) is None,
        },
{
    if s.len() > 0 && s[0] == '+' {
        assert(s@.subrange(1, s@.len() as int) =~= s@.drop_first());
        assert(!is_digit(s@[0]));
        match digits_up_to(s, 1, max) {
            Some(v) => Some((false, v)),
            None => None,
        }
    } else if neg_max > 0 && s.len() > 0 && s[0] == '-' {
        assert(s@.subrange(1, s@.len() as int) =~= s@.drop_first());
        assert(!is_digit(s@[0]));
        match digits_up_to(s, 1, neg_max) {
            Some(v) => if v == 0 {
                Some((false, 0))
            } else {
                Some((true, v))
            },
            None => None,
        }
    } else {
        assert(s@.subrange(0, s@.len() as int) =~= s@);
        proof {
            if s@.len() > 0 && (s@[0] == '+' || s@[0] == '-') {
                assert(!is_digit(s@[0]));
            }
        }
        match digits_up_to(s, 0, max) {
            Some(v) => Some((false, v)),
            None => None,
        }
    }
}

} // verus!
