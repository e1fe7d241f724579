//! Character-level scanning: white space, tokens, lines and unsigned numbers.
//!
//! Executable functions work on slices of `char`; their contracts speak of
//! the corresponding `Seq<char>`.

use vstd::prelude::*;

verus! {

/// `String::push` of the standard library: the string afterwards is the
/// string before with `ch` appended. Assumed from its documentation.
pub assume_specification[ String::push ](s: &mut String, ch: char)
    ensures
        final(s)@ == old(s)@.push(ch),
;

/// Whether `c` carries the Unicode property `White_Space`.
pub open spec fn is_space(c: char) -> bool {
    let n = c as u32;
    ||| 0x09 <= n <= 0x0D
    ||| n == 0x20
    ||| n == 0x85
    ||| n == 0xA0
    ||| n == 0x1680
    ||| 0x2000 <= n <= 0x200A
    ||| n == 0x2028
    ||| n == 0x2029
    ||| n == 0x202F
    ||| n == 0x205F
    ||| n == 0x3000
}

/// The number of consecutive white-space characters of `s` that start at
/// position `i`.
pub open spec fn spaces_at(s: Seq<char>, i: int) -> nat
    decreases s.len() - i,
{
    if 0 <= i < s.len() && is_space(s[i]) {
        1 + spaces_at(s, i + 1)
    } else {
        0
    }
}

/// The number of consecutive characters of `s`, from position `i` on, that
/// are not white space.
pub open spec fn word_at(s: Seq<char>, i: int) -> nat
    decreases s.len() - i,
{
    if 0 <= i < s.len() && !is_space(s[i]) {
        1 + word_at(s, i + 1)
    } else {
        0
    }
}

/// `s` without its leading white space.
pub open spec fn trim_start(s: Seq<char>) -> Seq<char> {
    s.skip(spaces_at(s, 0) as int)
}

/// The maximal runs of non-white-space characters of `s` at or after
/// position `i`, in order.
pub open spec fn tokens_from(s: Seq<char>, i: int) -> Seq<Seq<char>>
    decreases
            if i <= s.len() {
                s.len() - i
            } else {
                0
            },
{
    if i < 0 || i >= s.len() {
        Seq::empty()
    } else if is_space(s[i]) {
        tokens_from(s, i + 1)
    } else {
        let end = i + 1 + word_at(s, i + 1);
        seq![s.subrange(i, end)] + tokens_from(s, end)
    }
}

/// The white-space separated tokens of `s`.
pub open spec fn tokens(s: Seq<char>) -> Seq<Seq<char>> {
    tokens_from(s, 0)
}

/// Whether `c` has the `White_Space` property.
pub fn is_white_space(c: char) -> (b: bool)
    ensures
        b == is_space(c),
{
    let n: u32 = c as u32;
    (0x09 <= n && n <= 0x0D) || n == 0x20 || n == 0x85 || n == 0xA0 || n == 0x1680 || (0x2000 <= n
        && n <= 0x200A) || n == 0x2028 || n == 0x2029 || n == 0x202F || n == 0x205F || n == 0x3000
}

/// The first position at or after `from` that holds no white space.
pub fn skip_spaces(s: &[char], from: usize) -> (to: usize)
    ensures
        to == from + spaces_at(s@, from as int),
        from <= s.len() ==> to <= s.len(),
{
    let mut i: usize = from;
    while i < s.len() && is_white_space(s[i])
        invariant
            from <= i,
            from <= s.len() ==> i <= s.len(),
            from + spaces_at(s@, from as int) == i + spaces_at(s@, i as int),
        decreases s.len() - i,
    {
        i += 1;
    }
    i
}

/// The first position at or after `from` that holds white space, or the
/// length of `s`.
pub fn skip_word(s: &[char], from: usize) -> (to: usize)
    ensures
        to == from + word_at(s@, from as int),
        from <= s.len() ==> to <= s.len(),
{
    let mut i: usize = from;
    while i < s.len() && !is_white_space(s[i])
        invariant
            from <= i,
            from <= s.len() ==> i <= s.len(),
            from + word_at(s@, from as int) == i + word_at(s@, i as int),
        decreases s.len() - i,
    {
        i += 1;
    }
    i
}

/// The tokens that the spans `(start, end)` cut out of `s`.
pub open spec fn spans_of(s: Seq<char>, spans: Seq<(usize, usize)>) -> Seq<Seq<char>> {
    Seq::new(spans.len(), |k: int| s.subrange(spans[k].0 as int, spans[k].1 as int))
}

/// Whether every span lies inside a text of length `len`.
pub open spec fn spans_within(spans: Seq<(usize, usize)>, len: nat) -> bool {
    forall|k: int| 0 <= k < spans.len() ==> (#[trigger] spans[k]).0 <= spans[k].1 <= len
}

/// Splits `s` at white space and returns where each token starts and ends.
pub fn split_tokens(s: &[char]) -> (spans: Vec<(usize, usize)>)
    ensures
        spans_within(spans@, s@.len()),
        spans_of(s@, spans@) == tokens(s@),
{
    let mut spans: Vec<(usize, usize)> = Vec::new();
    let mut i: usize = 0;
    while i < s.len()
        invariant
            i <= s.len(),
            spans_within(spans@, s@.len()),
            spans_of(s@, spans@) + tokens_from(s@, i as int) == tokens(s@),
        decreases s.len() - i,
    {
        if is_white_space(s[i]) {
            i += 1;
        } else {
            let end: usize = skip_word(s, i + 1);
            let ghost before = spans@;
            spans.push((i, end));
            proof {
                assert(spans_of(s@, spans@) =~= spans_of(s@, before) + seq![
                    s@.subrange(i as int, end as int),
                ]);
                assert(spans_of(s@, spans@) + tokens_from(s@, end as int) =~= spans_of(s@, before)
                    + tokens_from(s@, i as int));
            }
            i = end;
        }
    }
    assert(spans_of(s@, spans@) + tokens_from(s@, i as int) =~= spans_of(s@, spans@));
    spans
}

/// The number of consecutive colons of `s` that end just before position `n`.
pub open spec fn colons_before(s: Seq<char>, n: int) -> nat
    decreases n,
{
    if 0 < n <= s.len() && s[n - 1] == ':' {
        1 + colons_before(s, n - 1)
    } else {
        0
    }
}

/// `s` without its trailing colons.
pub open spec fn strip_colons(s: Seq<char>) -> Seq<char> {
    s.take(s.len() - colons_before(s, s.len() as int))
}

/// The length of `s` once its trailing colons are taken off.
pub fn colons_start(s: &[char]) -> (to: usize)
    ensures
        to + colons_before(s@, s@.len() as int) == s@.len(),
        s@.take(to as int) == strip_colons(s@),
{
    let mut i: usize = s.len();
    while i > 0 && s[i - 1] == ':'
        invariant
            i <= s.len(),
            i + colons_before(s@, s@.len() as int) == s@.len() + colons_before(s@, i as int),
        decreases i,
    {
        i -= 1;
    }
    i
}

/// Whether `c` is one of the ASCII digits `0` to `9`.
pub open spec fn is_digit(c: char) -> bool {
    0x30 <= c as u32 <= 0x39
}

/// The value of the digit `c`.
pub open spec fn digit_value(c: char) -> nat {
    (c as u32 - 0x30) as nat
}

/// Whether `s` holds ASCII digits only.
pub open spec fn all_digits(s: Seq<char>) -> bool {
    forall|i: int| 0 <= i < s.len() ==> is_digit(#[trigger] s[i])
}

/// The number that the digits `s` write in base ten.
pub open spec fn decimal_value(s: Seq<char>) -> nat
    decreases s.len(),
{
    if s.len() == 0 {
        0
    } else {
        decimal_value(s.drop_last()) * 10 + digit_value(s.last())
    }
}

/// The digits of an unsigned number: `s` without one leading `+`.
pub open spec fn unsigned_digits(s: Seq<char>) -> Seq<char> {
    if s.len() > 0 && s[0] == '+' {
        s.drop_first()
    } else {
        s
    }
}

/// The number that `s` writes, if `s` is an optional `+` followed by at
/// least one ASCII digit and the number is at most `max`.
pub open spec fn unsigned_of(s: Seq<char>, max: nat) -> Option<nat> {
    let digits = unsigned_digits(s);
    if digits.len() > 0 && all_digits(digits) && decimal_value(digits) <= max {
        Some(decimal_value(digits))
    } else {
        None
    }
}

/// The number that `s` writes, or `default` where it writes none.
pub open spec fn unsigned_or(s: Seq<char>, max: nat, default: nat) -> nat {
    match unsigned_of(s, max) {
        Some(n) => n,
        None => default,
    }
}

/// Reads an unsigned decimal number that is at most `max`.
pub fn parse_unsigned(s: &[char], max: u32) -> (r: Option<u32>)
    ensures
        match r {
            Some(n) => unsigned_of(s@, max as nat) == Some(n as nat),
            None => unsigned_of(s@, max as nat) is None,
        },
{
    let start: usize = if s.len() > 0 && s[0] == '+' {
        1
    } else {
        0
    };
    if start >= s.len() {
        return None;
    }
    let ghost digits = unsigned_digits(s@);
    let bound: u64 = max as u64 + 1;
    let mut value: u64 = 0;
    let mut i: usize = start;
    assert(digits =~= s@.skip(start as int));
    assert(digits.take(0) =~= Seq::<char>::empty());
    while i < s.len()
        invariant
            start <= i <= s.len(),
            digits == s@.skip(start as int),
            digits == unsigned_digits(s@),
            bound == max + 1,
            all_digits(digits.take(i - start)),
            value <= bound,
            value == bound || value == decimal_value(digits.take(i - start)),
            value == bound ==> decimal_value(digits.take(i - start)) >= bound,
        decreases s.len() - i,
    {
        let c: char = s[i];
        let n: u32 = c as u32;
        if n < 0x30 || n > 0x39 {
            assert(!is_digit(digits[i - start]));
            return None;
        }
        let digit: u64 = (n - 0x30) as u64;
        assert(digits.take(i + 1 - start).drop_last() =~= digits.take(i - start));
        assert(digits.take(i + 1 - start).last() == c);
        value = value * 10 + digit;
        if value > bound {
            value = bound;
        }
        i += 1;
    }
    assert(digits.take(i - start) =~= digits);
    if value >= bound {
        None
    } else {
        Some(value as u32)
    }
}

/// Reads an unsigned decimal number that is at most `max`; `default` stands
/// in where `s` writes no such number.
pub fn parse_unsigned_or(s: &[char], max: u32, default: u32) -> (n: u32)
    ensures
        n == unsigned_or(s@, max as nat, default as nat),
{
    match parse_unsigned(s, max) {
        Some(n) => n,
        None => default,
    }
}

/// The number of characters of `s`, from position `i` on, that come before
/// the next line feed.
pub open spec fn line_len(s: Seq<char>, i: int) -> nat
    decreases s.len() - i,
{
    if 0 <= i < s.len() && s[i] != '\n' {
        1 + line_len(s, i + 1)
    } else {
        0
    }
}

/// `s` without one trailing carriage return.
pub open spec fn strip_cr(s: Seq<char>) -> Seq<char> {
    if s.len() > 0 && s.last() == '\r' {
        s.drop_last()
    } else {
        s
    }
}

/// The line of `s` that starts at position `i`. A line ends before a line
/// feed, or before a carriage return and a line feed, or where `s` ends.
pub open spec fn line_at(s: Seq<char>, i: int) -> Seq<char> {
    let end = i + line_len(s, i);
    if end < s.len() {
        strip_cr(s.subrange(i, end))
    } else {
        s.subrange(i, end)
    }
}

/// The lines of `s` from position `i` on.
pub open spec fn lines_from(s: Seq<char>, i: int) -> Seq<Seq<char>>
    decreases
            if i <= s.len() {
                s.len() - i
            } else {
                0
            },
{
    if i < 0 || i >= s.len() {
        Seq::empty()
    } else {
        seq![line_at(s, i)] + lines_from(s, i + line_len(s, i) + 1)
    }
}

/// The lines of `s`. A line feed at the very end opens no further line.
pub open spec fn lines(s: Seq<char>) -> Seq<Seq<char>> {
    lines_from(s, 0)
}

/// Finds the line that starts at `from`: returns where the line ends and
/// where the next one starts. At or after the end of `s` no line starts, and
/// both positions are `from`.
pub fn next_line(s: &[char], from: usize) -> (r: (usize, usize))
    ensures
        from < s.len() ==> {
            &&& from <= r.0 <= s.len()
            &&& from < r.1 <= s.len()
            &&& s@.subrange(from as int, r.0 as int) == line_at(s@, from as int)
            &&& lines_from(s@, from as int) == seq![line_at(s@, from as int)] + lines_from(
                s@,
                r.1 as int,
            )
        },
        from >= s.len() ==> r == (from, from),
{
    if from >= s.len() {
        return (from, from);
    }
    let mut end: usize = from;
    while end < s.len() && s[end] != '\n'
        invariant
            from <= end <= s.len(),
            from + line_len(s@, from as int) == end + line_len(s@, end as int),
        decreases s.len() - end,
    {
        end += 1;
    }
    if end < s.len() {
        let stop: usize = if end > from && s[end - 1] == '\r' {
            end - 1
        } else {
            end
        };
        assert(s@.subrange(from as int, stop as int) =~= strip_cr(
            s@.subrange(from as int, end as int),
        ));
        (stop, end + 1)
    } else {
        assert(lines_from(s@, end as int + 1) =~= lines_from(s@, end as int));
        (end, end)
    }
}

/// The characters of `s`.
pub fn to_chars(s: &str) -> (v: Vec<char>)
    ensures
        v@ == s@,
{
    let mut v: Vec<char> = Vec::new();
    for c in it: s.chars()
        invariant
            v@ == it.seq().take(it.index() as int),
            it.seq() == s@,
    {
        v.push(c);
    }
    v
}

/// The string that holds the characters of `s`.
pub fn text_of(s: &[char]) -> (t: String)
    ensures
        t@ == s@,
{
    let mut t = String::new();
    let mut i: usize = 0;
    while i < s.len()
        invariant
            i <= s.len(),
            t@ == s@.take(i as int),
        decreases s.len() - i,
    {
        t.push(s[i]);
        i += 1;
        assert(t@ =~= s@.take(i as int));
    }
    assert(s@.take(i as int) =~= s@);
    t
}

/// Whether `s` begins with the characters of `prefix`.
pub fn starts_with(s: &[char], prefix: &str) -> (b: bool)
    ensures
        b == prefix@.is_prefix_of(s@),
{
    let mut i: usize = 0;
    for c in it: prefix.chars()
        invariant
            it.seq() == prefix@,
            i == it.index(),
            i <= s.len(),
            s@.take(i as int) == prefix@.take(i as int),
    {
        if i >= s.len() || s[i] != c {
            assert(!prefix@.is_prefix_of(s@)) by {
                if prefix@.is_prefix_of(s@) {
                    assert(s@.subrange(0, prefix@.len() as int)[i as int] == prefix@[i as int]);
                }
            }
            return false;
        }
        i += 1;
        assert(s@.take(i as int) =~= prefix@.take(i as int));
    }
    assert(prefix@.take(i as int) =~= prefix@);
    true
}

} // verus!
