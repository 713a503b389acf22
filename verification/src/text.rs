//! Small tools on text that the rest of the library shares.

use vstd::prelude::*;
use crate::status::{decimal_digits, decimal_value, digit_char, digit_value};

verus! {

/// `String::push` appends one character to the end of the string.
pub assume_specification[ std::string::String::push ](s: &mut std::string::String, ch: char)
    ensures
        final(s)@ == old(s)@.push(ch),
;

/// The quote character that encloses a text in the caller's language.
pub const QUOTE: char = '"';

/// The characters of `s`, in order.
pub fn chars_of(s: &str) -> (chars: Vec<char>)
    ensures
        chars@ == s@,
{
    let mut chars: Vec<char> = Vec::new();
    let all = s.chars();
    for c in it: all
        invariant
            it.seq() == s@,
            chars@ == it.seq().take(it.index()),
    {
        chars.push(c);
        assert(it.seq().take(it.index() + 1) =~= it.seq().take(it.index()).push(c));
    }
    assert(chars@ =~= s@);
    chars
}

/// Appends the characters `chars[from..to]` to `text`.
pub fn push_chars(text: &mut String, chars: &Vec<char>, from: usize, to: usize)
    requires
        from <= to <= chars@.len(),
    ensures
        final(text)@ == old(text)@ + chars@.subrange(from as int, to as int),
{
    let mut i: usize = from;
    assert(chars@.subrange(from as int, from as int) =~= Seq::<char>::empty());
    assert(text@ + Seq::<char>::empty() =~= text@);
    while i < to
        invariant
            from <= i <= to <= chars@.len(),
            text@ == old(text)@ + chars@.subrange(from as int, i as int),
        decreases to - i,
    {
        text.push(chars[i]);
        assert(chars@.subrange(from as int, i + 1) =~= chars@.subrange(from as int, i as int).push(
            chars@[i as int],
        ));
        assert((old(text)@ + chars@.subrange(from as int, i as int)).push(chars@[i as int])
            =~= old(text)@ + chars@.subrange(from as int, i + 1));
        i = i + 1;
    }
}

/// A text without one pair of enclosing quote characters. A text that does not
/// both begin and end with a quote character, or is a single quote character,
/// is left as it is.
pub open spec fn unquoted(s: Seq<char>) -> Seq<char> {
    if s.len() >= 2 && s.first() == QUOTE && s.last() == QUOTE {
        s.subrange(1, s.len() - 1)
    } else {
        s
    }
}

/// Strips one pair of enclosing quote characters from `s`, if there is one.
pub fn unquote(s: &str) -> (stripped: String)
    ensures
        stripped@ == unquoted(s@),
{
    let chars = chars_of(s);
    let n = chars.len();
    let mut stripped = String::new();
    if n >= 2 && chars[0] == QUOTE && chars[n - 1] == QUOTE {
        push_chars(&mut stripped, &chars, 1, n - 1);
        assert(Seq::<char>::empty() + chars@.subrange(1, n - 1) =~= chars@.subrange(1, n - 1));
    } else {
        push_chars(&mut stripped, &chars, 0, n);
        assert(Seq::<char>::empty() + chars@.subrange(0, n as int) =~= chars@);
    }
    stripped
}

/// The character of a digit below ten.
pub fn digit_of(d: u8) -> (c: char)
    requires
        d < 10,
    ensures
        c == digit_char(d as nat),
{
    if d == 0 {
        '0'
    } else if d == 1 {
        '1'
    } else if d == 2 {
        '2'
    } else if d == 3 {
        '3'
    } else if d == 4 {
        '4'
    } else if d == 5 {
        '5'
    } else if d == 6 {
        '6'
    } else if d == 7 {
        '7'
    } else if d == 8 {
        '8'
    } else {
        '9'
    }
}

/// Appends the decimal digits of `n` to `text`.
pub fn push_decimal(text: &mut String, n: u64)
    ensures
        final(text)@ == old(text)@ + decimal_digits(n as nat),
    decreases n,
{
    if n < 10 {
        text.push(digit_of(n as u8));
        assert(old(text)@.push(digit_char(n as nat)) =~= old(text)@ + decimal_digits(n as nat));
    } else {
        push_decimal(text, n / 10);
        text.push(digit_of((n % 10) as u8));
        assert((old(text)@ + decimal_digits((n / 10) as nat)).push(digit_char((n % 10) as nat))
            =~= old(text)@ + decimal_digits(n as nat));
    }
}

/// The decimal text of an integer: a minus sign for a negative one, then the
/// digits of its magnitude.
pub open spec fn integer_text(n: int) -> Seq<char> {
    if n < 0 {
        seq!['-'] + decimal_digits((-n) as nat)
    } else {
        decimal_digits(n as nat)
    }
}

/// The decimal text of `n`.
pub fn integer_string(n: i64) -> (text: String)
    ensures
        text@ == integer_text(n as int),
{
    let mut text = String::new();
    if n < 0 {
        text.push('-');
        let magnitude: u64 = ((-(n + 1)) as u64) + 1;
        push_decimal(&mut text, magnitude);
        assert(Seq::<char>::empty().push('-') =~= seq!['-']);
    } else {
        push_decimal(&mut text, n as u64);
        assert(Seq::<char>::empty() + decimal_digits(n as nat) =~= decimal_digits(n as nat));
    }
    text
}

/// Whether a character is a decimal digit.
pub open spec fn is_digit(c: char) -> bool {
    digit_value(c) < 10
}

/// Whether a text holds decimal digits only.
pub open spec fn all_digits(s: Seq<char>) -> bool {
    forall|i: int| 0 <= i < s.len() ==> is_digit(#[trigger] s[i])
}

/// The integer that a text denotes: an optional sign, `+` or, where `signed`,
/// `-`, followed by one decimal digit or more and nothing else.
pub open spec fn parsed_integer(s: Seq<char>, signed: bool) -> Option<int> {
    let negative = signed && s.len() > 0 && s[0] == '-';
    let digits = if s.len() > 0 && (s[0] == '+' || negative) {
        s.skip(1)
    } else {
        s
    };
    if digits.len() > 0 && all_digits(digits) {
        Some(
            if negative {
                -(decimal_value(digits) as int)
            } else {
                decimal_value(digits) as int
            },
        )
    } else {
        None
    }
}

/// The integer that a text denotes, if it lies between `min` and `max`. A minus
/// sign is accepted where `min` is negative.
pub open spec fn parsed_in_range(s: Seq<char>, min: int, max: int) -> Option<int> {
    match parsed_integer(s, min < 0) {
        Some(v) => if min <= v <= max {
            Some(v)
        } else {
            None
        },
        None => None,
    }
}

/// The digits read so far never denote more than the whole text.
pub proof fn lemma_decimal_value_prefix(s: Seq<char>, k: int)
    requires
        0 <= k <= s.len(),
    ensures
        decimal_value(s.take(k)) <= decimal_value(s),
    decreases s.len(),
{
    if k == s.len() {
        assert(s.take(k) =~= s);
    } else {
        lemma_decimal_value_prefix(s.drop_last(), k);
        assert(s.drop_last().take(k) =~= s.take(k));
    }
}

/// The value of a digit character; `None` for any other character.
pub fn digit_value_of(c: char) -> (d: Option<u8>)
    ensures
        d is Some <==> is_digit(c),
        d matches Some(v) ==> v == digit_value(c),
{
    if c == '0' {
        Some(0)
    } else if c == '1' {
        Some(1)
    } else if c == '2' {
        Some(2)
    } else if c == '3' {
        Some(3)
    } else if c == '4' {
        Some(4)
    } else if c == '5' {
        Some(5)
    } else if c == '6' {
        Some(6)
    } else if c == '7' {
        Some(7)
    } else if c == '8' {
        Some(8)
    } else if c == '9' {
        Some(9)
    } else {
        None
    }
}

/// The largest magnitude that [`parse_integer`] is asked to tell apart.
pub const PARSE_LIMIT: i128 = 0x1_0000_0000_0000_0000;

/// Reads `s` as a decimal integer between `min` and `max`.
#[verifier::loop_isolation(false)]
pub fn parse_integer(s: &str, min: i128, max: i128) -> (parsed: Option<i128>)
    requires
        -PARSE_LIMIT <= min <= 0 <= max <= PARSE_LIMIT,
    ensures
        parsed matches Some(v) ==> parsed_in_range(s@, min as int, max as int) == Some(v as int),
        parsed is None ==> parsed_in_range(s@, min as int, max as int) is None,
{
    let chars = chars_of(s);
    let n = chars.len();
    let negative = min < 0 && n > 0 && chars[0] == '-';
    let start: usize = if n > 0 && (chars[0] == '+' || negative) {
        1
    } else {
        0
    };
    let ghost digits = chars@.skip(start as int);
    assert(chars@.skip(0) =~= chars@);
    if start == n {
        return None;
    }
    let mut acc: i128 = 0;
    let mut i: usize = start;
    assert(digits.take(0) =~= Seq::<char>::empty());
    while i < n
        invariant
            start <= i <= n,
            n == chars@.len(),
            digits == chars@.skip(start as int),
            all_digits(digits.take(i - start)),
            acc == decimal_value(digits.take(i - start)),
            0 <= acc <= PARSE_LIMIT,
        decreases n - i,
    {
        let ghost next = digits.take(i - start + 1);
        proof {
            assert(next.drop_last() =~= digits.take(i - start));
            assert(next.last() == chars@[i as int]);
            assert(digits[i - start] == chars@[i as int]);
        }
        match digit_value_of(chars[i]) {
            None => {
                return None;
            },
            Some(d) => {
                acc = acc * 10 + d as i128;
                if acc > PARSE_LIMIT {
                    proof {
                        lemma_decimal_value_prefix(digits, i - start + 1);
                        if all_digits(digits) {
                            assert(decimal_value(digits) > PARSE_LIMIT);
                        }
                    }
                    return None;
                }
            },
        }
        i = i + 1;
    }
    proof {
        assert(digits.take(n - start) =~= digits);
    }
    let value = if negative {
        -acc
    } else {
        acc
    };
    if min <= value && value <= max {
        Some(value)
    } else {
        None
    }
}

/// The digits of a number are digits.
pub proof fn lemma_decimal_digits_are_digits(n: nat)
    ensures
        decimal_digits(n).len() >= 1,
        all_digits(decimal_digits(n)),
    decreases n,
{
    if n >= 10 {
        lemma_decimal_digits_are_digits(n / 10);
    }
}

/// Reading the decimal text of an integer gives the integer back.
pub proof fn lemma_integer_text_parses(n: int)
    ensures
        parsed_integer(integer_text(n), true) == Some(n),
        n >= 0 ==> parsed_integer(integer_text(n), false) == Some(n),
{
    if n < 0 {
        let digits = decimal_digits((-n) as nat);
        lemma_decimal_digits_are_digits((-n) as nat);
        crate::status::lemma_decimal_value_of_digits((-n) as nat);
        assert(integer_text(n).skip(1) =~= digits);
    } else {
        let digits = decimal_digits(n as nat);
        lemma_decimal_digits_are_digits(n as nat);
        crate::status::lemma_decimal_value_of_digits(n as nat);
        assert(is_digit(digits[0]));
    }
}

/// The decimal text of an integer has no enclosing quote characters to lose.
pub proof fn lemma_integer_text_unquoted(n: int)
    ensures
        unquoted(integer_text(n)) == integer_text(n),
{
    if n < 0 {
        lemma_decimal_digits_are_digits((-n) as nat);
        assert(integer_text(n).last() == decimal_digits((-n) as nat).last());
        assert(is_digit(decimal_digits((-n) as nat).last()));
    } else {
        lemma_decimal_digits_are_digits(n as nat);
        assert(is_digit(decimal_digits(n as nat).last()));
    }
}

/// The place of the first `c` in `s` at or behind `from`; the length of `s` if
/// there is none.
pub open spec fn first_index_of(s: Seq<char>, c: char, from: int) -> int
    decreases s.len() - from,
{
    if from < 0 || from >= s.len() {
        s.len() as int
    } else if s[from] == c {
        from
    } else {
        first_index_of(s, c, from + 1)
    }
}

/// The first `c` at or behind `from` stands at `at` if none stands before it.
pub proof fn lemma_first_index_of(s: Seq<char>, c: char, from: int, at: int)
    requires
        0 <= from <= at <= s.len(),
        forall|j: int| from <= j < at ==> s[j] != c,
        at < s.len() ==> s[at] == c,
    ensures
        first_index_of(s, c, from) == at,
    decreases at - from,
{
    if from < at {
        lemma_first_index_of(s, c, from + 1, at);
    }
}

/// The place of the first `c` in `chars`; the length of `chars` if there is none.
pub fn find_first(chars: &Vec<char>, c: char) -> (at: usize)
    ensures
        at == first_index_of(chars@, c, 0),
        at <= chars@.len(),
{
    let mut at: usize = 0;
    while at < chars.len() && chars[at] != c
        invariant
            at <= chars@.len(),
            forall|j: int| 0 <= j < at ==> chars@[j] != c,
        decreases chars@.len() - at,
    {
        at = at + 1;
    }
    proof {
        lemma_first_index_of(chars@, c, 0, at as int);
    }
    at
}

/// Whether `chars[from..to]` holds decimal digits only.
pub fn digits_only(chars: &Vec<char>, from: usize, to: usize) -> (yes: bool)
    requires
        from <= to <= chars@.len(),
    ensures
        yes == all_digits(chars@.subrange(from as int, to as int)),
{
    let ghost part = chars@.subrange(from as int, to as int);
    let mut i: usize = from;
    while i < to
        invariant
            from <= i <= to <= chars@.len(),
            part == chars@.subrange(from as int, to as int),
            forall|j: int| 0 <= j < i - from ==> is_digit(#[trigger] part[j]),
        decreases to - i,
    {
        if digit_value_of(chars[i]).is_none() {
            assert(!is_digit(part[i - from]));
            return false;
        }
        i = i + 1;
    }
    true
}

/// Whether a text is a decimal literal: an optional minus sign, one digit or
/// more, and optionally a point followed by one digit or more.
pub open spec fn is_decimal_literal(s: Seq<char>) -> bool {
    let body = if s.len() > 0 && s[0] == '-' {
        s.skip(1)
    } else {
        s
    };
    let point = first_index_of(body, '.', 0);
    &&& 0 < point <= body.len()
    &&& all_digits(body.take(point))
    &&& point < body.len() ==> point + 1 < body.len() && all_digits(body.skip(point + 1))
}

/// Whether `text` is a decimal literal.
pub fn check_decimal_literal(s: &str) -> (yes: bool)
    ensures
        yes == is_decimal_literal(s@),
{
    let chars = chars_of(s);
    let n = chars.len();
    let start: usize = if n > 0 && chars[0] == '-' {
        1
    } else {
        0
    };
    let mut body: Vec<char> = Vec::new();
    let mut i: usize = start;
    while i < n
        invariant
            start <= i <= n,
            n == chars@.len(),
            body@ == chars@.subrange(start as int, i as int),
        decreases n - i,
    {
        body.push(chars[i]);
        assert(chars@.subrange(start as int, i + 1) =~= chars@.subrange(start as int, i as int).push(
            chars@[i as int],
        ));
        i = i + 1;
    }
    assert(body@ =~= chars@.skip(start as int));
    assert(chars@.skip(0) =~= chars@);
    let point = find_first(&body, '.');
    assert(body@.take(point as int) =~= body@.subrange(0, point as int));
    if point == 0 || !digits_only(&body, 0, point) {
        return false;
    }
    if point == body.len() {
        return true;
    }
    assert(body@.skip(point + 1) =~= body@.subrange(point + 1, body@.len() as int));
    point + 1 < body.len() && digits_only(&body, point + 1, body.len())
}

} // verus!
