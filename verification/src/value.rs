//! The values exchanged with the caller, and their textual form.

use vstd::prelude::*;
use crate::status::decimal_digits;
use vstd::string::StringExecFns;
use crate::text::{
    check_decimal_literal, chars_of, integer_string, integer_text, is_decimal_literal,
    push_decimal, QUOTE,
};

verus! {

/// A number, held as its decimal text.
#[derive(Debug, PartialEq, Eq)]
pub struct Number {
    text: String,
}

impl View for Number {
    type V = Seq<char>;

    closed spec fn view(&self) -> Seq<char> {
        self.text@
    }
}

impl Number {
    /// The number `n`.
    pub fn from_i64(n: i64) -> (number: Number)
        ensures
            number@ == integer_text(n as int),
    {
        Number { text: integer_string(n) }
    }

    /// The number `n`.
    pub fn from_u64(n: u64) -> (number: Number)
        ensures
            number@ == decimal_digits(n as nat),
    {
        let mut text = String::new();
        push_decimal(&mut text, n);
        assert(Seq::<char>::empty() + decimal_digits(n as nat) =~= decimal_digits(n as nat));
        Number { text }
    }

    /// The number that the decimal literal `literal` denotes; `None` for a
    /// text that is no decimal literal.
    pub fn parse(literal: &str) -> (number: Option<Number>)
        ensures
            number is Some <==> is_decimal_literal(literal@),
            number matches Some(n) ==> n@ == literal@,
    {
        if check_decimal_literal(literal) {
            Some(Number { text: String::from_str(literal) })
        } else {
            None
        }
    }

    /// The decimal text of the number.
    pub fn text(&self) -> (text: &str)
        ensures
            text@ == self@,
    {
        self.text.as_str()
    }

}

impl Clone for Number {
    fn clone(&self) -> (copy: Self)
        ensures
            copy@ == self@,
    {
        Number { text: self.text.clone() }
    }
}

/// A value of the caller's language.
#[derive(Debug, PartialEq, Eq)]
pub enum Value {
    /// Nothing.
    Null,
    /// A number.
    Number(Number),
    /// A list of values.
    Array(Vec<Value>),
    /// A truth value.
    Boolean(bool),
    /// A text.
    String(String),
}

/// What a [`Value`] holds, as mathematics.
pub enum ValueView {
    /// Nothing.
    Null,
    /// A number, as its decimal text.
    Number(Seq<char>),
    /// A list of values.
    Array(Seq<ValueView>),
    /// A truth value.
    Boolean(bool),
    /// A text.
    String(Seq<char>),
}

impl View for Value {
    type V = ValueView;

    open spec fn view(&self) -> ValueView
        decreases self,
    {
        match self {
            Value::Null => ValueView::Null,
            Value::Number(n) => ValueView::Number(n@),
            Value::Array(items) => ValueView::Array(
                Seq::new(
                    items.len() as nat,
                    |i: int|
                        if 0 <= i < items.len() {
                            items[i].view()
                        } else {
                            ValueView::Null
                        },
                ),
            ),
            Value::Boolean(b) => ValueView::Boolean(*b),
            Value::String(s) => ValueView::String(s@),
        }
    }
}

/// A text with every quote character in it doubled.
pub open spec fn escaped(s: Seq<char>) -> Seq<char>
    decreases s.len(),
{
    if s.len() == 0 {
        s
    } else if s.last() == QUOTE {
        escaped(s.drop_last()).push(QUOTE).push(QUOTE)
    } else {
        escaped(s.drop_last()).push(s.last())
    }
}

/// The canonical text of a value: `null`; the decimal text of a number; `true`
/// or `false`; a text between quote characters, the quote characters in it
/// doubled; the canonical texts of a list's items between square brackets,
/// separated by commas.
pub open spec fn canonical_text(v: ValueView) -> Seq<char>
    decreases v, 0nat,
{
    match v {
        ValueView::Null => seq!['n', 'u', 'l', 'l'],
        ValueView::Number(text) => text,
        ValueView::Array(items) => seq!['['] + joined_text(items) + seq![']'],
        ValueView::Boolean(b) => if b {
            seq!['t', 'r', 'u', 'e']
        } else {
            seq!['f', 'a', 'l', 's', 'e']
        },
        ValueView::String(s) => seq![QUOTE] + escaped(s) + seq![QUOTE],
    }
}

/// The canonical texts of `items`, separated by commas.
pub open spec fn joined_text(items: Seq<ValueView>) -> Seq<char>
    decreases items, 1nat,
{
    if items.len() == 0 {
        Seq::empty()
    } else if items.len() == 1 {
        canonical_text(items[0])
    } else {
        joined_text(items.drop_last()) + seq![','] + canonical_text(items.last())
    }
}

/// The text that stands for a value in the output buffer and in a callback:
/// the raw content of a text, the canonical text of any other value.
pub open spec fn output_text(v: ValueView) -> Seq<char> {
    match v {
        ValueView::String(s) => s,
        _ => canonical_text(v),
    }
}

impl Value {
    /// Appends the canonical text of the value to `out`.
    pub fn render_into(&self, out: &mut String)
        ensures
            final(out)@ == old(out)@ + canonical_text(self@),
        decreases self,
    {
        match self {
            Value::Null => {
                out.push('n');
                out.push('u');
                out.push('l');
                out.push('l');
                assert(out@ =~= old(out)@ + canonical_text(self@));
            },
            Value::Number(n) => {
                let chars = chars_of(n.text());
                crate::text::push_chars(out, &chars, 0, chars.len());
                assert(chars@.subrange(0, chars@.len() as int) =~= chars@);
            },
            Value::Array(items) => {
                out.push('[');
                let ghost views = self@->Array_0;
                let mut i: usize = 0;
                while i < items.len()
                    invariant
                        i <= items.len(),
                        self == Value::Array(*items),
                        views == self@->Array_0,
                        views.len() == items.len(),
                        forall|j: int| 0 <= j < items.len() ==> views[j] == #[trigger] items[j]@,
                        out@ == old(out)@ + seq!['['] + joined_text(views.take(i as int)),
                    decreases items.len() - i,
                {
                    let ghost before = out@;
                    if i > 0 {
                        out.push(',');
                    }
                    items[i].render_into(out);
                    proof {
                        let next = views.take(i + 1);
                        assert(next.drop_last() =~= views.take(i as int));
                        assert(next.last() == items[i as int]@);
                        if i == 0 {
                            assert(joined_text(views.take(0)) =~= Seq::<char>::empty());
                            assert(out@ =~= old(out)@ + seq!['['] + joined_text(next));
                        } else {
                            assert(out@ =~= old(out)@ + seq!['['] + joined_text(next));
                        }
                    }
                    i = i + 1;
                }
                out.push(']');
                proof {
                    assert(views.take(items.len() as int) =~= views);
                    assert(out@ =~= old(out)@ + canonical_text(self@));
                }
            },
            Value::Boolean(b) => {
                if *b {
                    out.push('t');
                    out.push('r');
                    out.push('u');
                    out.push('e');
                } else {
                    out.push('f');
                    out.push('a');
                    out.push('l');
                    out.push('s');
                    out.push('e');
                }
                assert(out@ =~= old(out)@ + canonical_text(self@));
            },
            Value::String(s) => {
                out.push(QUOTE);
                let chars = chars_of(s.as_str());
                let mut i: usize = 0;
                assert(chars@.take(0) =~= Seq::<char>::empty());
                while i < chars.len()
                    invariant
                        i <= chars.len(),
                        out@ == old(out)@ + seq![QUOTE] + escaped(chars@.take(i as int)),
                    decreases chars.len() - i,
                {
                    let c = chars[i];
                    out.push(c);
                    if c == QUOTE {
                        out.push(QUOTE);
                    }
                    proof {
                        let next = chars@.take(i + 1);
                        assert(next.drop_last() =~= chars@.take(i as int));
                        assert(next.last() == c);
                        assert(out@ =~= old(out)@ + seq![QUOTE] + escaped(next));
                    }
                    i = i + 1;
                }
                out.push(QUOTE);
                proof {
                    assert(chars@.take(chars.len() as int) =~= chars@);
                    assert(out@ =~= old(out)@ + canonical_text(self@));
                }
            },
        }
    }

    /// The canonical text of the value.
    pub fn to_string(&self) -> (text: String)
        ensures
            text@ == canonical_text(self@),
    {
        let mut text = String::new();
        self.render_into(&mut text);
        assert(Seq::<char>::empty() + canonical_text(self@) =~= canonical_text(self@));
        text
    }

    /// The text that stands for the value in the output buffer and in a
    /// callback: the raw content of a text, the canonical text of any other
    /// value.
    pub fn into_output(self) -> (text: String)
        ensures
            text@ == output_text(self@),
    {
        match self {
            Value::String(s) => s,
            v => v.to_string(),
        }
    }
}

impl Clone for Value {
    fn clone(&self) -> (copy: Self)
        ensures
            copy@ == self@,
        decreases self,
    {
        match self {
            Value::Null => Value::Null,
            Value::Number(n) => Value::Number(n.clone()),
            Value::Array(items) => {
                let mut copies: Vec<Value> = Vec::new();
                let mut i: usize = 0;
                while i < items.len()
                    invariant
                        i <= items.len(),
                        self == Value::Array(*items),
                        copies.len() == i,
                        forall|j: int| 0 <= j < i ==> #[trigger] copies[j]@ == items[j]@,
                    decreases items.len() - i,
                {
                    assert(self->Array_0 == *items);
                    copies.push(items[i].clone());
                    i = i + 1;
                }
                let copy = Value::Array(copies);
                proof {
                    let mine = self@->Array_0;
                    let theirs = copy@->Array_0;
                    assert(mine.len() == theirs.len());
                    assert forall|j: int| 0 <= j < mine.len() implies mine[j] == theirs[j] by {
                        assert(copies[j]@ == items[j]@);
                    }
                    assert(mine =~= theirs);
                }
                copy
            },
            Value::Boolean(b) => Value::Boolean(*b),
            Value::String(s) => Value::String(s.clone()),
        }
    }
}

} // verus!
