//! The integer that every invocation answers with.
//!
//! `0` is success. A failure that carries a detail is written as one leading
//! digit, which names the kind of failure, followed by the decimal digits of
//! the detail, and the whole is read as one decimal number: an argument-count
//! mismatch with 5 arguments supplied is `25`, a conversion failure at
//! position 0 is `30`. A count that cannot be written behind the digit, because
//! it is negative or the number would not fit the status, is reported by the
//! bare digit `2`.

use vstd::prelude::*;

verus! {

/// The invocation completed.
pub const STATUS_SUCCESS: libc::c_int = 0;

/// The function name could not be read as text, or names no command.
pub const STATUS_INVALID_NAME: libc::c_int = 1;

/// The encoded result did not fit into the output buffer.
pub const STATUS_OUTPUT_OVERFLOW: libc::c_int = 4;

/// The number of arguments did not match, and the number supplied cannot be
/// written behind the leading digit: it is negative, or the status would not
/// fit its type.
pub const STATUS_COUNT_UNREPORTABLE: libc::c_int = 2;

/// Leading digit of an argument-count mismatch.
pub const KIND_COUNT_MISMATCH: libc::c_int = 2;

/// Leading digit of an argument conversion failure.
pub const KIND_CONVERSION_FAILURE: libc::c_int = 3;

/// The largest argument count whose mismatch status still fits the status type.
pub const MAX_REPORTABLE_COUNT: libc::c_int = 147_483_647;

/// The largest argument position whose conversion status still fits the status type.
pub const MAX_REPORTABLE_POSITION: usize = 99_999_999;

/// The character that stands for a digit below ten.
pub open spec fn digit_char(d: nat) -> char {
    if d == 0 {
        '0'
    } else if d == 1 {
        '1'
    } else if d == 2 {
        '2'
    } else if d == 3 {
        '3'
    } else if d == 4 {
        '4'
    } else if d == 5 {
        '5'
    } else if d == 6 {
        '6'
    } else if d == 7 {
        '7'
    } else if d == 8 {
        '8'
    } else {
        '9'
    }
}

/// The digit that a character stands for; `10` for a character that is no digit.
pub open spec fn digit_value(c: char) -> nat {
    if c == '0' {
        0
    } else if c == '1' {
        1
    } else if c == '2' {
        2
    } else if c == '3' {
        3
    } else if c == '4' {
        4
    } else if c == '5' {
        5
    } else if c == '6' {
        6
    } else if c == '7' {
        7
    } else if c == '8' {
        8
    } else if c == '9' {
        9
    } else {
        10
    }
}

/// The decimal representation of `n`, most significant digit first, without
/// leading zeros.
pub open spec fn decimal_digits(n: nat) -> Seq<char>
    decreases n,
{
    if n < 10 {
        seq![digit_char(n)]
    } else {
        decimal_digits(n / 10).push(digit_char(n % 10))
    }
}

/// The number that a string of decimal digits denotes.
pub open spec fn decimal_value(digits: Seq<char>) -> nat
    decreases digits.len(),
{
    if digits.len() == 0 {
        0
    } else {
        decimal_value(digits.drop_last()) * 10 + digit_value(digits.last())
    }
}

/// Ten to the power `k`.
pub open spec fn pow10(k: nat) -> nat
    decreases k,
{
    if k == 0 {
        1
    } else {
        10 * pow10((k - 1) as nat)
    }
}

/// The status with leading digit `kind` and detail `detail`: the number denoted
/// by the digit `kind` followed by the decimal digits of `detail`.
pub open spec fn tagged_status(kind: nat, detail: nat) -> nat {
    decimal_value(seq![digit_char(kind)] + decimal_digits(detail))
}

/// The status of an argument-count mismatch on which `count` arguments were supplied.
pub open spec fn mismatch_status_spec(count: nat) -> nat {
    tagged_status(2, count)
}

/// The status of a conversion failure at the zero-based position `position`.
pub open spec fn conversion_status_spec(position: nat) -> nat {
    tagged_status(3, position)
}

/// A count can be reported in a mismatch status if it is not negative and the
/// digits fit the status type.
pub open spec fn reportable_count(count: int) -> bool {
    0 <= count <= MAX_REPORTABLE_COUNT
}

/// The status of an argument-count mismatch on which `count` arguments were
/// said to be supplied: the digit `2` followed by the decimal digits of
/// `count` where that can be written, the bare digit `2` where it cannot.
pub open spec fn mismatch_report(count: int) -> int {
    if reportable_count(count) {
        mismatch_status_spec(count as nat) as int
    } else {
        STATUS_COUNT_UNREPORTABLE as int
    }
}

/// Reading digits `a` followed by digits `b` shifts the value of `a` by one
/// decimal place for each digit of `b`.
pub proof fn lemma_decimal_value_concat(a: Seq<char>, b: Seq<char>)
    ensures
        decimal_value(a + b) == decimal_value(a) * pow10(b.len()) + decimal_value(b),
    decreases b.len(),
{
    if b.len() == 0 {
        assert(a + b =~= a);
        assert(pow10(0) == 1);
        assert(decimal_value(b) == 0);
    } else {
        lemma_decimal_value_concat(a, b.drop_last());
        assert((a + b).drop_last() =~= a + b.drop_last());
        assert((a + b).last() == b.last());
        let x = decimal_value(a);
        let p = pow10((b.len() - 1) as nat);
        let y = decimal_value(b.drop_last());
        assert(pow10(b.len()) == 10 * p);
        assert(decimal_value(a + b) == (x * p + y) * 10 + digit_value(b.last()));
        assert(decimal_value(b) == y * 10 + digit_value(b.last()));
        assert((x * p + y) * 10 == x * (10 * p) + y * 10) by (nonlinear_arith);
    }
}

/// The decimal digits of a number denote that number.
pub proof fn lemma_decimal_value_of_digits(n: nat)
    ensures
        decimal_value(decimal_digits(n)) == n,
    decreases n,
{
    if n < 10 {
        let s = decimal_digits(n);
        assert(s.drop_last() =~= Seq::<char>::empty());
        assert(decimal_value(s.drop_last()) == 0);
    } else {
        lemma_decimal_value_of_digits(n / 10);
        let s = decimal_digits(n);
        assert(s.drop_last() =~= decimal_digits(n / 10));
        assert(s.last() == digit_char(n % 10));
    }
}

/// A number below ten to the `k` has at most `k` digits, and at least one.
pub proof fn lemma_digit_count(n: nat, k: nat)
    requires
        k >= 1,
        n < pow10(k),
    ensures
        1 <= decimal_digits(n).len() <= k,
    decreases k,
{
    if n >= 10 {
        if k == 1 {
            assert(pow10(1) == 10) by {
                reveal_with_fuel(pow10, 2);
            }
        } else {
            lemma_digit_count(n / 10, (k - 1) as nat);
        }
    }
}

/// A tagged status is the leading digit, shifted past the digits of the
/// detail, plus the detail.
pub proof fn lemma_tagged_status(kind: nat, detail: nat)
    requires
        kind <= 9,
    ensures
        tagged_status(kind, detail) == kind * pow10(decimal_digits(detail).len()) + detail,
        tagged_status(kind, detail) >= 10 * kind,
{
    let head = seq![digit_char(kind)];
    lemma_decimal_value_concat(head, decimal_digits(detail));
    lemma_decimal_value_of_digits(detail);
    assert(head.drop_last() =~= Seq::<char>::empty());
    assert(decimal_value(head.drop_last()) == 0);
    assert(decimal_value(head) == kind);
    let len = decimal_digits(detail).len();
    lemma_pow10_exceeds(detail + 1);
    lemma_digit_count(detail, detail + 1);
    assert(pow10(len) >= 10) by {
        assert(pow10(len) == 10 * pow10((len - 1) as nat));
        lemma_pow10_positive((len - 1) as nat);
    }
    assert(kind * pow10(len) >= kind * 10) by (nonlinear_arith)
        requires
            pow10(len) >= 10,
    ;
}

proof fn lemma_pow10_positive(k: nat)
    ensures
        pow10(k) >= 1,
    decreases k,
{
    if k > 0 {
        lemma_pow10_positive((k - 1) as nat);
    }
}

proof fn lemma_pow10_exceeds(k: nat)
    ensures
        pow10(k) > k,
    decreases k,
{
    if k > 0 {
        lemma_pow10_exceeds((k - 1) as nat);
    }
}

/// Builds the status with leading digit `kind` and detail `detail`.
fn tagged(kind: libc::c_int, detail: libc::c_int) -> (status: libc::c_int)
    requires
        1 <= kind <= 9,
        0 <= detail,
        kind * pow10(decimal_digits(detail as nat).len()) + detail <= libc::c_int::MAX,
    ensures
        status == tagged_status(kind as nat, detail as nat),
{
    let ghost len = decimal_digits(detail as nat).len();
    let mut rest: i64 = detail as i64;
    let mut scale: i64 = 10;
    proof {
        lemma_pow10_positive((len - 1) as nat);
        lemma_tagged_status(kind as nat, detail as nat);
    }
    while rest >= 10
        invariant
            0 <= rest,
            1 <= scale,
            decimal_digits(rest as nat).len() >= 1,
            pow10(len) == scale * pow10((decimal_digits(rest as nat).len() - 1) as nat),
            kind * pow10(len) + detail <= libc::c_int::MAX,
            1 <= kind,
        decreases rest,
    {
        proof {
            let inner = decimal_digits((rest / 10) as nat).len();
            assert(decimal_digits(rest as nat).len() == inner + 1);
            lemma_pow10_exceeds((rest / 10) as nat + 1);
            lemma_digit_count((rest / 10) as nat, (rest / 10) as nat + 1);
            lemma_pow10_positive((inner - 1) as nat);
            let q = pow10((inner - 1) as nat);
            assert(pow10(inner) == 10 * q);
            assert(scale * (10 * q) == (scale * 10) * q) by (nonlinear_arith);
            assert(scale * 10 <= (scale * 10) * q) by (nonlinear_arith)
                requires
                    q >= 1,
                    scale >= 1,
            ;
            assert(pow10(len) <= kind * pow10(len)) by (nonlinear_arith)
                requires
                    kind >= 1,
            ;
        }
        scale = scale * 10;
        rest = rest / 10;
    }
    proof {
        assert(decimal_digits(rest as nat).len() == 1);
        assert(pow10(0) == 1);
        assert(scale * 1 == scale);
    }
    (kind as i64 * scale + detail as i64) as libc::c_int
}

/// The status of an argument-count mismatch on which `count` arguments were
/// said to be supplied: the digit `2` followed by the decimal digits of
/// `count`, or [`STATUS_COUNT_UNREPORTABLE`] for a count that cannot be
/// written so.
pub fn mismatch_status(count: libc::c_int) -> (status: libc::c_int)
    ensures
        status == mismatch_report(count as int),
        status != STATUS_SUCCESS,
{
    if !is_reportable_count(count) {
        return STATUS_COUNT_UNREPORTABLE;
    }
    proof {
        lemma_status_fits(2, count as nat);
        lemma_tagged_status(2, count as nat);
    }
    tagged(KIND_COUNT_MISMATCH, count)
}

/// The status of a conversion failure at the zero-based position `position`:
/// the digit `3` followed by the decimal digits of `position`.
pub fn conversion_status(position: usize) -> (status: libc::c_int)
    requires
        position <= MAX_REPORTABLE_POSITION,
    ensures
        status == conversion_status_spec(position as nat),
        status >= 30,
{
    proof {
        lemma_status_fits(3, position as nat);
        lemma_tagged_status(3, position as nat);
    }
    tagged(KIND_CONVERSION_FAILURE, position as libc::c_int)
}

/// Whether `count` can be reported in a mismatch status.
pub fn is_reportable_count(count: libc::c_int) -> (yes: bool)
    ensures
        yes == reportable_count(count as int),
{
    0 <= count && count <= MAX_REPORTABLE_COUNT
}

proof fn lemma_status_fits(kind: nat, detail: nat)
    requires
        kind == 2 && detail <= 147_483_647 || kind == 3 && detail <= 99_999_999,
    ensures
        kind * pow10(decimal_digits(detail).len()) + detail <= 0x7fff_ffff,
{
    reveal_with_fuel(pow10, 10);
    assert(pow10(8) == 100_000_000);
    assert(pow10(9) == 1_000_000_000);
    let len = decimal_digits(detail).len();
    if detail < 100_000_000 {
        lemma_digit_count(detail, 8);
        lemma_pow10_monotonic(len, 8);
        assert(kind * pow10(len) <= kind * 100_000_000) by (nonlinear_arith)
            requires
                pow10(len) <= 100_000_000,
        ;
    } else {
        lemma_digit_count(detail, 9);
        lemma_pow10_monotonic(len, 9);
        assert(kind * pow10(len) <= kind * 1_000_000_000) by (nonlinear_arith)
            requires
                pow10(len) <= 1_000_000_000,
        ;
    }
}

proof fn lemma_pow10_monotonic(a: nat, b: nat)
    requires
        a <= b,
    ensures
        pow10(a) <= pow10(b),
    decreases b,
{
    if a < b {
        lemma_pow10_monotonic(a, (b - 1) as nat);
    }
}

/// A number is below ten to the number of its digits.
pub proof fn lemma_below_pow10(n: nat)
    ensures
        n < pow10(decimal_digits(n).len()),
    decreases n,
{
    if n < 10 {
        assert(pow10(1) == 10) by {
            reveal_with_fuel(pow10, 2);
        }
    } else {
        lemma_below_pow10(n / 10);
        let inner = decimal_digits(n / 10).len();
        assert(decimal_digits(n).len() == inner + 1);
        assert(pow10(inner + 1) == 10 * pow10(inner));
    }
}

proof fn lemma_tagged_status_ordered(kind: nat, detail: nat, other_kind: nat, other: nat)
    requires
        1 <= kind <= 9,
        1 <= other_kind <= 9,
        decimal_digits(detail).len() < decimal_digits(other).len(),
    ensures
        tagged_status(kind, detail) < tagged_status(other_kind, other),
{
    let short = decimal_digits(detail).len();
    let long = decimal_digits(other).len();
    lemma_tagged_status(kind, detail);
    lemma_tagged_status(other_kind, other);
    lemma_below_pow10(detail);
    lemma_pow10_monotonic(short + 1, long);
    let x = pow10(short);
    let y = pow10(long);
    assert(pow10(short + 1) == 10 * x);
    assert(kind * x + detail < 10 * x) by (nonlinear_arith)
        requires
            kind <= 9,
            detail < x,
    ;
    assert(y <= other_kind * y) by (nonlinear_arith)
        requires
            other_kind >= 1,
            y >= 0,
    ;
}

/// A status tells its kind and its detail: two tagged statuses are equal only
/// if their leading digits are and their details are.
pub proof fn lemma_tagged_status_injective(kind: nat, detail: nat, other_kind: nat, other: nat)
    requires
        1 <= kind <= 9,
        1 <= other_kind <= 9,
        tagged_status(kind, detail) == tagged_status(other_kind, other),
    ensures
        kind == other_kind,
        detail == other,
{
    let len = decimal_digits(detail).len();
    let other_len = decimal_digits(other).len();
    if len < other_len {
        lemma_tagged_status_ordered(kind, detail, other_kind, other);
    } else if other_len < len {
        lemma_tagged_status_ordered(other_kind, other, kind, detail);
    } else {
        lemma_tagged_status(kind, detail);
        lemma_tagged_status(other_kind, other);
        lemma_below_pow10(detail);
        lemma_below_pow10(other);
        let x = pow10(len);
        assert(kind == other_kind) by (nonlinear_arith)
            requires
                kind * x + detail == other_kind * x + other,
                detail < x,
                other < x,
        ;
    }
}

/// No failure is mistaken for another or for a success: the status of a
/// mismatch and that of a conversion failure differ from each other and from
/// the fixed statuses, and each tells its count or its position.
pub proof fn lemma_statuses_distinct(count: nat, position: nat)
    ensures
        mismatch_status_spec(count) != conversion_status_spec(position),
        mismatch_status_spec(count) >= 20,
        conversion_status_spec(position) >= 30,
        forall|other: nat|
            #[trigger] mismatch_status_spec(other) == mismatch_status_spec(count) ==> other == count,
        forall|other: nat|
            #[trigger] conversion_status_spec(other) == conversion_status_spec(position) ==> other
                == position,
{
    lemma_tagged_status(2, count);
    lemma_tagged_status(3, position);
    if mismatch_status_spec(count) == conversion_status_spec(position) {
        lemma_tagged_status_injective(2, count, 3, position);
    }
    assert forall|other: nat| #[trigger]
        mismatch_status_spec(other) == mismatch_status_spec(count) implies other == count by {
        lemma_tagged_status_injective(2, other, 2, count);
    }
    assert forall|other: nat| #[trigger]
        conversion_status_spec(other) == conversion_status_spec(position) implies other
        == position by {
        lemma_tagged_status_injective(3, other, 3, position);
    }
}

} // verus!
