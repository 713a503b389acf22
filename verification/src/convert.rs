//! Conversion between native values and the caller's values.

use vstd::prelude::*;
use vstd::string::StringExecFns;
use crate::status::decimal_digits;
use crate::text::{
    integer_text, lemma_integer_text_parses, lemma_integer_text_unquoted, parse_integer,
    parsed_in_range, unquote, unquoted,
};
use crate::value::{output_text, Number, Value, ValueView};

verus! {

/// A type that can be read from the text of an argument.
///
/// `decodable` says which texts can be read, `decodes_to` which value a text
/// gives. An implementation states both and `from_arma` keeps to them.
pub trait FromArma: Sized {
    /// Whether `raw` can be read as a value of this type.
    spec fn decodable(raw: Seq<char>) -> bool;

    /// Whether reading `raw` gives `value`.
    spec fn decodes_to(raw: Seq<char>, value: Self) -> bool;

    /// Reads `s`. A text that cannot be read is handed back as the error.
    fn from_arma(s: String) -> (decoded: Result<Self, String>)
        ensures
            decoded is Ok <==> Self::decodable(s@),
            decoded matches Ok(value) ==> Self::decodes_to(s@, value),
            decoded matches Err(rejected) ==> rejected@ == s@,
    ;
}

/// A type that can be handed to the caller as a [`Value`].
pub trait IntoArma {
    /// The value that stands for `self`.
    spec fn arma_value(&self) -> ValueView;

    /// The value that stands for `self`. Never fails.
    fn to_arma(&self) -> (value: Value)
        ensures
            value@ == self.arma_value(),
    ;
}

/// Whether an argument can be decoded as a `T`: whether, without its pair of
/// enclosing quote characters, it can be read as one.
pub open spec fn decodes<T: FromArma>(raw: Seq<char>) -> bool {
    T::decodable(unquoted(raw))
}

/// Whether decoding an argument gives `value`: whether reading it without its
/// pair of enclosing quote characters does.
pub open spec fn decodes_as<T: FromArma>(raw: Seq<char>, value: T) -> bool {
    T::decodes_to(unquoted(raw), value)
}

/// Decodes an argument: strips one pair of enclosing quote characters, where
/// there is one, and reads the rest as a `T`. A text that cannot be read is
/// handed back as the error.
pub fn decode<T: FromArma>(raw: &str) -> (decoded: Result<T, String>)
    ensures
        decoded is Ok <==> decodes::<T>(raw@),
        decoded matches Ok(value) ==> decodes_as::<T>(raw@, value),
        decoded matches Err(rejected) ==> rejected@ == unquoted(raw@),
{
    T::from_arma(unquote(raw))
}

impl FromArma for String {
    open spec fn decodable(raw: Seq<char>) -> bool {
        true
    }

    open spec fn decodes_to(raw: Seq<char>, value: Self) -> bool {
        value@ == raw
    }

    fn from_arma(s: String) -> (decoded: Result<Self, String>) {
        Ok(s)
    }
}

impl IntoArma for String {
    open spec fn arma_value(&self) -> ValueView {
        ValueView::String(self@)
    }

    fn to_arma(&self) -> (value: Value) {
        Value::String(self.clone())
    }
}

impl IntoArma for Value {
    open spec fn arma_value(&self) -> ValueView {
        self@
    }

    fn to_arma(&self) -> (value: Value) {
        self.clone()
    }
}

impl<T: IntoArma> IntoArma for Option<T> {
    open spec fn arma_value(&self) -> ValueView {
        match self {
            Some(inner) => inner.arma_value(),
            None => ValueView::Null,
        }
    }

    fn to_arma(&self) -> (value: Value) {
        match self {
            Some(inner) => inner.to_arma(),
            None => Value::Null,
        }
    }
}

impl<T: IntoArma> IntoArma for Vec<T> {
    open spec fn arma_value(&self) -> ValueView {
        ValueView::Array(Seq::new(self@.len(), |i: int| self@[i].arma_value()))
    }

    fn to_arma(&self) -> (value: Value) {
        let mut items: Vec<Value> = Vec::new();
        let mut i: usize = 0;
        while i < self.len()
            invariant
                i <= self@.len(),
                items@.len() == i,
                forall|j: int| 0 <= j < i ==> #[trigger] items@[j]@ == self@[j].arma_value(),
            decreases self@.len() - i,
        {
            items.push(self[i].to_arma());
            i = i + 1;
        }
        let value = Value::Array(items);
        proof {
            let mine = value@->Array_0;
            let wanted = self.arma_value()->Array_0;
            assert(mine.len() == wanted.len());
            assert forall|j: int| 0 <= j < mine.len() implies mine[j] == wanted[j] by {
                assert(items@[j]@ == self@[j].arma_value());
            }
            assert(mine =~= wanted);
        }
        value
    }
}

/// The truth value that a text denotes: `true` or `false`, nothing else.
pub open spec fn parsed_bool(raw: Seq<char>) -> Option<bool> {
    if raw == seq!['t', 'r', 'u', 'e'] {
        Some(true)
    } else if raw == seq!['f', 'a', 'l', 's', 'e'] {
        Some(false)
    } else {
        None
    }
}

impl FromArma for bool {
    open spec fn decodable(raw: Seq<char>) -> bool {
        parsed_bool(raw) is Some
    }

    open spec fn decodes_to(raw: Seq<char>, value: Self) -> bool {
        parsed_bool(raw) == Some(value)
    }

    fn from_arma(s: String) -> (decoded: Result<Self, String>) {
        let yes = String::from_str("true");
        let no = String::from_str("false");
        proof {
            reveal_strlit("true");
            reveal_strlit("false");
            assert(yes@ =~= seq!['t', 'r', 'u', 'e']);
            assert(no@ =~= seq!['f', 'a', 'l', 's', 'e']);
        }
        if s == yes {
            Ok(true)
        } else if s == no {
            Ok(false)
        } else {
            Err(s)
        }
    }
}

impl IntoArma for bool {
    open spec fn arma_value(&self) -> ValueView {
        ValueView::Boolean(*self)
    }

    fn to_arma(&self) -> (value: Value) {
        Value::Boolean(*self)
    }
}

impl FromArma for i8 {
    open spec fn decodable(raw: Seq<char>) -> bool {
        parsed_in_range(raw, i8::MIN as int, i8::MAX as int) is Some
    }

    open spec fn decodes_to(raw: Seq<char>, value: Self) -> bool {
        parsed_in_range(raw, i8::MIN as int, i8::MAX as int) == Some(value as int)
    }

    fn from_arma(s: String) -> (decoded: Result<Self, String>) {
        match parse_integer(s.as_str(), i8::MIN as i128, i8::MAX as i128) {
            Some(v) => Ok(v as i8),
            None => Err(s),
        }
    }
}

impl FromArma for i16 {
    open spec fn decodable(raw: Seq<char>) -> bool {
        parsed_in_range(raw, i16::MIN as int, i16::MAX as int) is Some
    }

    open spec fn decodes_to(raw: Seq<char>, value: Self) -> bool {
        parsed_in_range(raw, i16::MIN as int, i16::MAX as int) == Some(value as int)
    }

    fn from_arma(s: String) -> (decoded: Result<Self, String>) {
        match parse_integer(s.as_str(), i16::MIN as i128, i16::MAX as i128) {
            Some(v) => Ok(v as i16),
            None => Err(s),
        }
    }
}

impl FromArma for i32 {
    open spec fn decodable(raw: Seq<char>) -> bool {
        parsed_in_range(raw, i32::MIN as int, i32::MAX as int) is Some
    }

    open spec fn decodes_to(raw: Seq<char>, value: Self) -> bool {
        parsed_in_range(raw, i32::MIN as int, i32::MAX as int) == Some(value as int)
    }

    fn from_arma(s: String) -> (decoded: Result<Self, String>) {
        match parse_integer(s.as_str(), i32::MIN as i128, i32::MAX as i128) {
            Some(v) => Ok(v as i32),
            None => Err(s),
        }
    }
}

impl FromArma for i64 {
    open spec fn decodable(raw: Seq<char>) -> bool {
        parsed_in_range(raw, i64::MIN as int, i64::MAX as int) is Some
    }

    open spec fn decodes_to(raw: Seq<char>, value: Self) -> bool {
        parsed_in_range(raw, i64::MIN as int, i64::MAX as int) == Some(value as int)
    }

    fn from_arma(s: String) -> (decoded: Result<Self, String>) {
        match parse_integer(s.as_str(), i64::MIN as i128, i64::MAX as i128) {
            Some(v) => Ok(v as i64),
            None => Err(s),
        }
    }
}

impl FromArma for u8 {
    open spec fn decodable(raw: Seq<char>) -> bool {
        parsed_in_range(raw, u8::MIN as int, u8::MAX as int) is Some
    }

    open spec fn decodes_to(raw: Seq<char>, value: Self) -> bool {
        parsed_in_range(raw, u8::MIN as int, u8::MAX as int) == Some(value as int)
    }

    fn from_arma(s: String) -> (decoded: Result<Self, String>) {
        match parse_integer(s.as_str(), u8::MIN as i128, u8::MAX as i128) {
            Some(v) => Ok(v as u8),
            None => Err(s),
        }
    }
}

impl FromArma for u16 {
    open spec fn decodable(raw: Seq<char>) -> bool {
        parsed_in_range(raw, u16::MIN as int, u16::MAX as int) is Some
    }

    open spec fn decodes_to(raw: Seq<char>, value: Self) -> bool {
        parsed_in_range(raw, u16::MIN as int, u16::MAX as int) == Some(value as int)
    }

    fn from_arma(s: String) -> (decoded: Result<Self, String>) {
        match parse_integer(s.as_str(), u16::MIN as i128, u16::MAX as i128) {
            Some(v) => Ok(v as u16),
            None => Err(s),
        }
    }
}

impl FromArma for u32 {
    open spec fn decodable(raw: Seq<char>) -> bool {
        parsed_in_range(raw, u32::MIN as int, u32::MAX as int) is Some
    }

    open spec fn decodes_to(raw: Seq<char>, value: Self) -> bool {
        parsed_in_range(raw, u32::MIN as int, u32::MAX as int) == Some(value as int)
    }

    fn from_arma(s: String) -> (decoded: Result<Self, String>) {
        match parse_integer(s.as_str(), u32::MIN as i128, u32::MAX as i128) {
            Some(v) => Ok(v as u32),
            None => Err(s),
        }
    }
}

impl FromArma for u64 {
    open spec fn decodable(raw: Seq<char>) -> bool {
        parsed_in_range(raw, u64::MIN as int, u64::MAX as int) is Some
    }

    open spec fn decodes_to(raw: Seq<char>, value: Self) -> bool {
        parsed_in_range(raw, u64::MIN as int, u64::MAX as int) == Some(value as int)
    }

    fn from_arma(s: String) -> (decoded: Result<Self, String>) {
        match parse_integer(s.as_str(), u64::MIN as i128, u64::MAX as i128) {
            Some(v) => Ok(v as u64),
            None => Err(s),
        }
    }
}

impl IntoArma for i8 {
    open spec fn arma_value(&self) -> ValueView {
        ValueView::Number(integer_text(*self as int))
    }

    fn to_arma(&self) -> (value: Value) {
        Value::Number(Number::from_i64(*self as i64))
    }
}

impl IntoArma for i16 {
    open spec fn arma_value(&self) -> ValueView {
        ValueView::Number(integer_text(*self as int))
    }

    fn to_arma(&self) -> (value: Value) {
        Value::Number(Number::from_i64(*self as i64))
    }
}

impl IntoArma for i32 {
    open spec fn arma_value(&self) -> ValueView {
        ValueView::Number(integer_text(*self as int))
    }

    fn to_arma(&self) -> (value: Value) {
        Value::Number(Number::from_i64(*self as i64))
    }
}

impl IntoArma for u8 {
    open spec fn arma_value(&self) -> ValueView {
        ValueView::Number(decimal_digits(*self as nat))
    }

    fn to_arma(&self) -> (value: Value) {
        Value::Number(Number::from_u64(*self as u64))
    }
}

impl IntoArma for u16 {
    open spec fn arma_value(&self) -> ValueView {
        ValueView::Number(decimal_digits(*self as nat))
    }

    fn to_arma(&self) -> (value: Value) {
        Value::Number(Number::from_u64(*self as u64))
    }
}

impl IntoArma for u32 {
    open spec fn arma_value(&self) -> ValueView {
        ValueView::Number(decimal_digits(*self as nat))
    }

    fn to_arma(&self) -> (value: Value) {
        Value::Number(Number::from_u64(*self as u64))
    }
}

/// An `i8` that was encoded is decoded from its output text as itself.
pub proof fn lemma_i8_round_trip(n: i8)
    ensures
        decodes::<i8>(output_text(n.arma_value())),
        decodes_as::<i8>(output_text(n.arma_value()), n),
{
    lemma_integer_text_parses(n as int);
    lemma_integer_text_unquoted(n as int);
}

/// An `i16` that was encoded is decoded from its output text as itself.
pub proof fn lemma_i16_round_trip(n: i16)
    ensures
        decodes::<i16>(output_text(n.arma_value())),
        decodes_as::<i16>(output_text(n.arma_value()), n),
{
    lemma_integer_text_parses(n as int);
    lemma_integer_text_unquoted(n as int);
}

/// An `i32` that was encoded is decoded from its output text as itself.
pub proof fn lemma_i32_round_trip(n: i32)
    ensures
        decodes::<i32>(output_text(n.arma_value())),
        decodes_as::<i32>(output_text(n.arma_value()), n),
{
    lemma_integer_text_parses(n as int);
    lemma_integer_text_unquoted(n as int);
}

/// An `u8` that was encoded is decoded from its output text as itself.
pub proof fn lemma_u8_round_trip(n: u8)
    ensures
        decodes::<u8>(output_text(n.arma_value())),
        decodes_as::<u8>(output_text(n.arma_value()), n),
{
    lemma_integer_text_parses(n as int);
    lemma_integer_text_unquoted(n as int);
}

/// An `u16` that was encoded is decoded from its output text as itself.
pub proof fn lemma_u16_round_trip(n: u16)
    ensures
        decodes::<u16>(output_text(n.arma_value())),
        decodes_as::<u16>(output_text(n.arma_value()), n),
{
    lemma_integer_text_parses(n as int);
    lemma_integer_text_unquoted(n as int);
}

/// An `u32` that was encoded is decoded from its output text as itself.
pub proof fn lemma_u32_round_trip(n: u32)
    ensures
        decodes::<u32>(output_text(n.arma_value())),
        decodes_as::<u32>(output_text(n.arma_value()), n),
{
    lemma_integer_text_parses(n as int);
    lemma_integer_text_unquoted(n as int);
}

/// A `bool` that was encoded is decoded from its output text as itself.
pub proof fn lemma_bool_round_trip(b: bool)
    ensures
        decodes::<bool>(output_text(b.arma_value())),
        decodes_as::<bool>(output_text(b.arma_value()), b),
{
    let yes = seq!['t', 'r', 'u', 'e'];
    let no = seq!['f', 'a', 'l', 's', 'e'];
    assert(yes.len() == 4 && no.len() == 5);
    assert(yes.last() == 'e' && no.last() == 'e');
}

/// A `String` that was encoded is decoded from its output text as itself,
/// unless it begins and ends with a quote character: then it loses the two.
pub proof fn lemma_string_round_trip(s: String)
    ensures
        decodes::<String>(output_text(s.arma_value())),
        unquoted(s@) == s@ ==> decodes_as::<String>(output_text(s.arma_value()), s),
{
}

} // verus!
