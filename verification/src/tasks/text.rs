//! Text as sequences of characters: trimming, splitting at the first space,
//! case-blind comparison with a word, and decimal numbers both ways.

use vstd::prelude::*;
use vstd::string::StringExecFns;

verus! {

/// The characters that trimming removes: those that Unicode marks as
/// `White_Space`.
pub open spec fn is_whitespace(c: char) -> bool {
    let n = c as u32;
    ||| 0x09 <= n <= 0x0D
    ||| n == 0x20
    ||| n == 0x85
    ||| n == 0xA0
    ||| n == 0x1680
    ||| 0x2000 <= n <= 0x200A
    ||| n == 0x2028
    ||| n == 0x2029
    ||| n == 0x202F
    ||| n == 0x205F
    ||| n == 0x3000
}

/// `s` without its leading whitespace.
pub open spec fn trim_start(s: Seq<char>) -> Seq<char>
    decreases s.len(),
{
    if s.len() > 0 && is_whitespace(s.first()) {
        trim_start(s.drop_first())
    } else {
        s
    }
}

/// `s` without its trailing whitespace.
pub open spec fn trim_end(s: Seq<char>) -> Seq<char>
    decreases s.len(),
{
    if s.len() > 0 && is_whitespace(s.last()) {
        trim_end(s.drop_last())
    } else {
        s
    }
}

/// `s` without leading and trailing whitespace.
pub open spec fn trimmed(s: Seq<char>) -> Seq<char> {
    trim_end(trim_start(s))
}

/// The number of characters before the first space of `s`; all of them where
/// it has none.
pub open spec fn first_space(s: Seq<char>) -> nat
    decreases s.len(),
{
    if s.len() == 0 || s.first() == ' ' {
        0
    } else {
        1 + first_space(s.drop_first())
    }
}

/// The first word of `s`: what stands before its first space.
pub open spec fn head_word(s: Seq<char>) -> Seq<char> {
    s.take(first_space(s) as int)
}

/// What follows the first space of `s`, if it has one.
pub open spec fn after_head(s: Seq<char>) -> Option<Seq<char>> {
    if first_space(s) < s.len() {
        Some(s.skip(first_space(s) as int + 1))
    } else {
        None
    }
}

/// `c` with an ASCII capital turned into its small letter.
pub open spec fn ascii_lower(c: char) -> char {
    if 'A' <= c <= 'Z' {
        ((c as u8) + 32u8) as char
    } else {
        c
    }
}

/// `s` is `word` but for the case of ASCII letters.
pub open spec fn matches_word(s: Seq<char>, word: Seq<char>) -> bool {
    &&& s.len() == word.len()
    &&& forall|i: int| 0 <= i < s.len() ==> ascii_lower(#[trigger] s[i]) == ascii_lower(word[i])
}

/// The character of the decimal digit `d`.
pub open spec fn digit_char(d: nat) -> char
    recommends
        d < 10,
{
    ('0' as u8 + d as u8) as char
}

/// `c` is one of `0` to `9`.
pub open spec fn is_digit(c: char) -> bool {
    '0' <= c <= '9'
}

/// The value of the decimal digit `c`.
pub open spec fn digit_value(c: char) -> nat
    recommends
        is_digit(c),
{
    (c as u32 - '0' as u32) as nat
}

/// `n` in decimal, without leading zeros.
pub open spec fn decimal(n: nat) -> Seq<char>
    decreases n,
{
    if n < 10 {
        seq![digit_char(n)]
    } else {
        decimal(n / 10).push(digit_char(n % 10))
    }
}

/// The number that a run of decimal digits stands for.
pub open spec fn digits_value(s: Seq<char>) -> nat
    decreases s.len(),
{
    if s.len() == 0 {
        0
    } else {
        digits_value(s.drop_last()) * 10 + digit_value(s.last())
    }
}

/// Every character of `s` is a decimal digit.
pub open spec fn all_digits(s: Seq<char>) -> bool {
    forall|i: int| 0 <= i < s.len() ==> is_digit(#[trigger] s[i])
}

/// `s` without the `+` that it may start with.
pub open spec fn without_plus(s: Seq<char>) -> Seq<char> {
    if s.len() > 0 && s.first() == '+' {
        s.drop_first()
    } else {
        s
    }
}

/// The 32-bit number that a run of digits spells: there is at least one
/// character, each is a decimal digit, and the value fits.
pub open spec fn digits_number(digits: Seq<char>) -> Option<u32> {
    if digits.len() > 0 && all_digits(digits) && digits_value(digits) <= u32::MAX {
        Some(digits_value(digits) as u32)
    } else {
        None
    }
}

/// The 32-bit number that `s` spells: an optional `+`, then at least one
/// decimal digit and nothing else, and a value that fits. Anything else
/// spells no number.
pub open spec fn number_of(s: Seq<char>) -> Option<u32> {
    digits_number(without_plus(s))
}

/// `n` spaces.
pub open spec fn spaces(n: nat) -> Seq<char> {
    Seq::new(n, |i: int| ' ')
}

/// How many characters a text of `have` lacks to be `width` long.
pub open spec fn missing(have: nat, width: nat) -> nat {
    if have >= width {
        0
    } else {
        (width - have) as nat
    }
}

/// `s` followed by as many spaces as it lacks to be `width` long.
pub open spec fn pad_right(s: Seq<char>, width: nat) -> Seq<char> {
    s + spaces(missing(s.len(), width))
}

/// The characters of `s`, one by one.
pub fn chars_of(s: &str) -> (chars: Vec<char>)
    ensures
        chars@ == s@,
{
    let mut chars: Vec<char> = Vec::new();
    for c in it: s.chars()
        invariant
            it.seq() == s@,
            chars@ == it.seq().take(it.index()),
    {
        chars.push(c);
    }
    chars
}

/// Whether trimming removes `c`.
pub fn is_whitespace_char(c: char) -> (b: bool)
    ensures
        b == is_whitespace(c),
{
    let n: u32 = c as u32;
    (0x09 <= n && n <= 0x0D) || n == 0x20 || n == 0x85 || n == 0xA0 || n == 0x1680 || (0x2000 <= n
        && n <= 0x200A) || n == 0x2028 || n == 0x2029 || n == 0x202F || n == 0x205F || n == 0x3000
}

/// Skipping whitespace at the front one character at a time ends at
/// `trim_start`.
pub proof fn lemma_trim_start_skips(s: Seq<char>, i: int)
    requires
        0 <= i <= s.len(),
        forall|k: int| 0 <= k < i ==> is_whitespace(#[trigger] s[k]),
    ensures
        trim_start(s) == trim_start(s.skip(i)),
    decreases i,
{
    if i > 0 {
        assert(s.drop_first().skip(i - 1) =~= s.skip(i));
        lemma_trim_start_skips(s.drop_first(), i - 1);
    } else {
        assert(s.skip(0) =~= s);
    }
}

/// Dropping whitespace at the back one character at a time ends at
/// `trim_end`.
pub proof fn lemma_trim_end_takes(s: Seq<char>, j: int)
    requires
        0 <= j <= s.len(),
        forall|k: int| j <= k < s.len() ==> is_whitespace(#[trigger] s[k]),
    ensures
        trim_end(s) == trim_end(s.take(j)),
    decreases s.len() - j,
{
    if j < s.len() {
        assert(s.drop_last().take(j) =~= s.take(j));
        lemma_trim_end_takes(s.drop_last(), j);
    } else {
        assert(s.take(j) =~= s);
    }
}

/// The bounds of `trimmed(chars)` within `chars`.
pub fn trim_bounds(chars: &Vec<char>) -> (bounds: (usize, usize))
    ensures
        bounds.0 <= bounds.1 <= chars@.len(),
        chars@.subrange(bounds.0 as int, bounds.1 as int) == trimmed(chars@),
{
    let mut start: usize = 0;
    while start < chars.len() && is_whitespace_char(chars[start])
        invariant
            start <= chars.len(),
            forall|k: int| 0 <= k < start ==> is_whitespace(#[trigger] chars@[k]),
        decreases chars.len() - start,
    {
        start = start + 1;
    }
    let mut end: usize = chars.len();
    while end > start && is_whitespace_char(chars[end - 1])
        invariant
            start <= end <= chars.len(),
            forall|k: int| end <= k < chars@.len() ==> is_whitespace(#[trigger] chars@[k]),
        decreases end,
    {
        end = end - 1;
    }
    proof {
        let s = chars@;
        let front = s.skip(start as int);
        lemma_trim_start_skips(s, start as int);
        assert(trim_start(front) == front);
        assert(trim_start(s) == front);
        let j = end - start;
        assert forall|k: int| j <= k < front.len() implies is_whitespace(#[trigger] front[k]) by {
            assert(front[k] == s[k + start]);
        }
        lemma_trim_end_takes(front, j);
        let kept = front.take(j);
        assert(kept =~= s.subrange(start as int, end as int));
        if kept.len() > 0 {
            assert(kept.last() == s[end - 1]);
        }
        assert(trim_end(kept) == kept);
    }
    (start, end)
}

/// Where the first space is: after `i` characters that are none, at the
/// end or at a space.
pub proof fn lemma_first_space_at(s: Seq<char>, i: int)
    requires
        0 <= i <= s.len(),
        forall|k: int| 0 <= k < i ==> #[trigger] s[k] != ' ',
        i == s.len() || s[i] == ' ',
    ensures
        first_space(s) == i,
    decreases i,
{
    if i > 0 {
        let rest = s.drop_first();
        assert forall|k: int| 0 <= k < i - 1 implies #[trigger] rest[k] != ' ' by {
            assert(rest[k] == s[k + 1]);
        }
        lemma_first_space_at(rest, i - 1);
    }
}

/// The index of the first space among `chars[from..to]`, or `to` where
/// there is none.
pub fn find_space(chars: &Vec<char>, from: usize, to: usize) -> (at: usize)
    requires
        from <= to <= chars@.len(),
    ensures
        from <= at <= to,
        at - from == first_space(chars@.subrange(from as int, to as int)),
{
    let mut at: usize = from;
    while at < to && chars[at] != ' '
        invariant
            from <= at <= to <= chars@.len(),
            forall|k: int| from <= k < at ==> #[trigger] chars@[k] != ' ',
        decreases to - at,
    {
        at = at + 1;
    }
    proof {
        let s = chars@.subrange(from as int, to as int);
        assert forall|k: int| 0 <= k < at - from implies #[trigger] s[k] != ' ' by {
            assert(s[k] == chars@[k + from]);
        }
        lemma_first_space_at(s, at - from);
    }
    at
}

/// `c` with an ASCII capital turned into its small letter.
pub fn lower_char(c: char) -> (r: char)
    ensures
        r == ascii_lower(c),
{
    if c >= 'A' && c <= 'Z' {
        ((c as u8) + 32u8) as char
    } else {
        c
    }
}

/// Whether `chars[from..to]` is `word` but for the case of ASCII letters.
pub fn is_word(chars: &Vec<char>, from: usize, to: usize, word: &str) -> (b: bool)
    requires
        from <= to <= chars@.len(),
    ensures
        b == matches_word(chars@.subrange(from as int, to as int), word@),
{
    let letters = chars_of(word);
    if letters.len() != to - from {
        return false;
    }
    let ghost s = chars@.subrange(from as int, to as int);
    let mut i: usize = 0;
    while i < letters.len()
        invariant
            from <= to <= chars@.len(),
            letters@.len() == to - from,
            i <= letters@.len(),
            letters@ == word@,
            s == chars@.subrange(from as int, to as int),
            forall|k: int| 0 <= k < i ==> ascii_lower(#[trigger] s[k]) == ascii_lower(letters@[k]),
        decreases letters.len() - i,
    {
        if lower_char(chars[from + i]) != lower_char(letters[i]) {
            assert(s[i as int] == chars@[from + i]);
            return false;
        }
        assert(s[i as int] == chars@[from + i]);
        i = i + 1;
    }
    true
}

/// A run of digits is worth ten times the run without its last digit, plus
/// that digit.
pub proof fn lemma_digits_value_step(s: Seq<char>, from: int, i: int)
    requires
        0 <= from <= i < s.len(),
    ensures
        digits_value(s.subrange(from, i + 1)) == digits_value(s.subrange(from, i)) * 10
            + digit_value(s[i]),
{
    let longer = s.subrange(from, i + 1);
    assert(longer.drop_last() =~= s.subrange(from, i));
    assert(longer.last() == s[i]);
}

/// A run of digits is worth no less than any run it starts with.
pub proof fn lemma_digits_value_grows(s: Seq<char>, j: int)
    requires
        0 <= j <= s.len(),
    ensures
        digits_value(s.take(j)) <= digits_value(s),
    decreases s.len() - j,
{
    if j < s.len() {
        assert(s.drop_last().take(j) =~= s.take(j));
        lemma_digits_value_grows(s.drop_last(), j);
    } else {
        assert(s.take(j) =~= s);
    }
}

/// The 32-bit number that `chars[from..to]` spells, if it spells one.
pub fn parse_number(chars: &Vec<char>, from: usize, to: usize) -> (n: Option<u32>)
    requires
        from <= to <= chars@.len(),
    ensures
        n == number_of(chars@.subrange(from as int, to as int)),
{
    let ghost s = chars@.subrange(from as int, to as int);
    let mut start: usize = from;
    if start < to && chars[start] == '+' {
        start = start + 1;
    }
    let ghost digits = chars@.subrange(start as int, to as int);
    proof {
        if start > from {
            assert(s.first() == '+');
            assert(s.drop_first() =~= digits);
        } else if s.len() > 0 {
            assert(s.first() == chars@[from as int]);
            assert(s =~= digits);
        } else {
            assert(s =~= digits);
        }
        assert(without_plus(s) == digits);
    }
    if start == to {
        return None;
    }
    let mut value: u64 = 0;
    let mut i: usize = start;
    while i < to
        invariant
            start <= i <= to <= chars@.len(),
            digits == chars@.subrange(start as int, to as int),
            digits == without_plus(chars@.subrange(from as int, to as int)),
            forall|k: int| start <= k < i ==> is_digit(#[trigger] chars@[k]),
            value == digits_value(chars@.subrange(start as int, i as int)),
            value <= u32::MAX,
        decreases to - i,
    {
        let c = chars[i];
        if !(c >= '0' && c <= '9') {
            assert(digits[i - start] == c);
            return None;
        }
        proof {
            lemma_digits_value_step(chars@, start as int, i as int);
        }
        value = value * 10 + (c as u32 - '0' as u32) as u64;
        if value > 0xFFFF_FFFFu64 {
            proof {
                assert(digits.take(i + 1 - start) =~= chars@.subrange(start as int, i + 1));
                lemma_digits_value_grows(digits, i + 1 - start);
            }
            return None;
        }
        i = i + 1;
    }
    proof {
        assert forall|k: int| 0 <= k < digits.len() implies is_digit(#[trigger] digits[k]) by {
            assert(digits[k] == chars@[k + start]);
        }
        assert(chars@.subrange(start as int, i as int) == digits);
    }
    Some(value as u32)
}

/// The decimal digit `d` as a string.
pub fn digit_str(d: u32) -> (s: &'static str)
    requires
        d < 10,
    ensures
        s@ == seq![digit_char(d as nat)],
{
    proof {
        reveal_strlit("0");
        reveal_strlit("1");
        reveal_strlit("2");
        reveal_strlit("3");
        reveal_strlit("4");
        reveal_strlit("5");
        reveal_strlit("6");
        reveal_strlit("7");
        reveal_strlit("8");
        reveal_strlit("9");
    }
    let s = if d == 0 {
        "0"
    } else if d == 1 {
        "1"
    } else if d == 2 {
        "2"
    } else if d == 3 {
        "3"
    } else if d == 4 {
        "4"
    } else if d == 5 {
        "5"
    } else if d == 6 {
        "6"
    } else if d == 7 {
        "7"
    } else if d == 8 {
        "8"
    } else {
        "9"
    };
    assert(s@ =~= seq![digit_char(d as nat)]);
    s
}

/// Appends `n` in decimal to `out`.
pub fn push_decimal(out: &mut String, n: u32)
    ensures
        final(out)@ == old(out)@ + decimal(n as nat),
    decreases n,
{
    if n >= 10 {
        push_decimal(out, n / 10);
    }
    out.append(digit_str(n % 10));
    assert(final(out)@ =~= old(out)@ + decimal(n as nat));
}

/// Appends to `out` the spaces that a text of `have` characters lacks to be
/// `width` long.
pub fn push_padding(out: &mut String, have: usize, width: usize)
    ensures
        final(out)@ == old(out)@ + spaces(missing(have as nat, width as nat)),
{
    proof {
        reveal_strlit(" ");
    }
    let mut at: usize = have;
    assert(out@ =~= old(out)@ + spaces(0));
    while at < width
        invariant
            have <= at,
            at <= width || at == have,
            out@ == old(out)@ + spaces((at - have) as nat),
            " "@ == seq![' '],
        decreases width - at,
    {
        out.append(" ");
        at = at + 1;
        assert(out@ =~= old(out)@ + spaces((at - have) as nat));
    }
}

} // verus!
