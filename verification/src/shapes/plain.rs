//! Handlers that are callables without a context parameter and give no result:
//! one implementation of [`CommandFactory`] for each number of decoded parameters.
//!
//! Each implementation is followed by a lemma that states of a given callable
//! what the implementation defines. A caller that names a function or a
//! closure needs it to show that its handler is ready.

use vstd::prelude::*;
use crate::command::{arguments, take, CommandFactory, FromArguments};
use crate::context::Context;
use crate::convert::FromArma;
use crate::status::STATUS_SUCCESS;

verus! {

impl<Func> CommandFactory<(), ()> for Func where
    Func: Fn(),
{
    open spec fn arity(&self) -> nat {
        0
    }

    open spec fn ready(&self) -> bool {
        call_requires(*self, ())
    }

    open spec fn failure_position(&self, arguments: Seq<Seq<char>>) -> Option<nat> {
        <() as FromArguments>::failure_position(arguments)
    }

    open spec fn returns_value(&self) -> bool {
        false
    }

    open spec fn renders(
        &self,
        context: Context,
        arguments: Seq<Seq<char>>,
        text: Seq<char>,
    ) -> bool {
        call_ensures(*self, (), ())
            && text == Seq::<char>::empty()
    }

    fn call(
        &self,
        context: Context,
        output: &mut [libc::c_char],
        size: libc::size_t,
        args: Option<&[String]>,
        count: Option<libc::c_int>,
    ) -> (status: libc::c_int) {
        let () = match take::<()>(args, count) {
            Ok(values) => values,
            Err(status) => {
                return status;
            },
        };
        (self)();
        assert(self.renders(context, arguments(args), Seq::empty())) by {
            assert(<() as FromArguments>::decodes_to(arguments(args), ()));
        }
        STATUS_SUCCESS
    }
}

/// What [`CommandFactory`] says of a handler of this shape with no decoded parameters.
pub proof fn lemma_plain_0<Func>(
    handler: Func,
    context: Context,
    arguments: Seq<Seq<char>>,
    text: Seq<char>,
) where
    Func: Fn(),
    ensures
        CommandFactory::<(), ()>::arity(&handler) == 0,
        CommandFactory::<(), ()>::ready(&handler) <==> (
            call_requires(handler, ())
        ),
        CommandFactory::<(), ()>::returns_value(&handler) == false,
        CommandFactory::<(), ()>::failure_position(&handler, arguments)
            == <() as FromArguments>::failure_position(arguments),
        CommandFactory::<(), ()>::renders(&handler, context, arguments, text) <==> (
            call_ensures(handler, (), ())
                && text == Seq::<char>::empty()
        ),
{
}

impl<Func, A> CommandFactory<(A,), ()> for Func where
    Func: Fn(A),
    A: FromArma,
{
    open spec fn arity(&self) -> nat {
        1
    }

    open spec fn ready(&self) -> bool {
        forall|a: A| call_requires(*self, (a,))
    }

    open spec fn failure_position(&self, arguments: Seq<Seq<char>>) -> Option<nat> {
        <(A,) as FromArguments>::failure_position(arguments)
    }

    open spec fn returns_value(&self) -> bool {
        false
    }

    open spec fn renders(
        &self,
        context: Context,
        arguments: Seq<Seq<char>>,
        text: Seq<char>,
    ) -> bool {
        exists|values: (A,)|
            #![trigger <(A,) as FromArguments>::decodes_to(arguments, values)]
            <(A,) as FromArguments>::decodes_to(arguments, values)
                && call_ensures(*self, (values.0,), ())
                && text == Seq::<char>::empty()
    }

    fn call(
        &self,
        context: Context,
        output: &mut [libc::c_char],
        size: libc::size_t,
        args: Option<&[String]>,
        count: Option<libc::c_int>,
    ) -> (status: libc::c_int) {
        let (a,) = match take::<(A,)>(args, count) {
            Ok(values) => values,
            Err(status) => {
                return status;
            },
        };
        (self)(a);
        assert(self.renders(context, arguments(args), Seq::empty())) by {
            assert(<(A,) as FromArguments>::decodes_to(arguments(args), (a,)));
        }
        STATUS_SUCCESS
    }
}

/// What [`CommandFactory`] says of a handler of this shape with one decoded parameter.
pub proof fn lemma_plain_1<Func, A>(
    handler: Func,
    context: Context,
    arguments: Seq<Seq<char>>,
    text: Seq<char>,
) where
    Func: Fn(A),
    A: FromArma,
    ensures
        CommandFactory::<(A,), ()>::arity(&handler) == 1,
        CommandFactory::<(A,), ()>::ready(&handler) <==> (
            forall|a: A| call_requires(handler, (a,))
        ),
        CommandFactory::<(A,), ()>::returns_value(&handler) == false,
        CommandFactory::<(A,), ()>::failure_position(&handler, arguments)
            == <(A,) as FromArguments>::failure_position(arguments),
        CommandFactory::<(A,), ()>::renders(&handler, context, arguments, text) <==> (
            exists|values: (A,)|
                #![trigger <(A,) as FromArguments>::decodes_to(arguments, values)]
                <(A,) as FromArguments>::decodes_to(arguments, values)
                    && call_ensures(handler, (values.0,), ())
                    && text == Seq::<char>::empty()
        ),
{
}

impl<Func, A, B> CommandFactory<(A, B), ()> for Func where
    Func: Fn(A, B),
    A: FromArma,
    B: FromArma,
{
    open spec fn arity(&self) -> nat {
        2
    }

    open spec fn ready(&self) -> bool {
        forall|a: A, b: B| call_requires(*self, (a, b))
    }

    open spec fn failure_position(&self, arguments: Seq<Seq<char>>) -> Option<nat> {
        <(A, B) as FromArguments>::failure_position(arguments)
    }

    open spec fn returns_value(&self) -> bool {
        false
    }

    open spec fn renders(
        &self,
        context: Context,
        arguments: Seq<Seq<char>>,
        text: Seq<char>,
    ) -> bool {
        exists|values: (A, B)|
            #![trigger <(A, B) as FromArguments>::decodes_to(arguments, values)]
            <(A, B) as FromArguments>::decodes_to(arguments, values)
                && call_ensures(*self, (values.0, values.1), ())
                && text == Seq::<char>::empty()
    }

    fn call(
        &self,
        context: Context,
        output: &mut [libc::c_char],
        size: libc::size_t,
        args: Option<&[String]>,
        count: Option<libc::c_int>,
    ) -> (status: libc::c_int) {
        let (a, b) = match take::<(A, B)>(args, count) {
            Ok(values) => values,
            Err(status) => {
                return status;
            },
        };
        (self)(a, b);
        assert(self.renders(context, arguments(args), Seq::empty())) by {
            assert(<(A, B) as FromArguments>::decodes_to(arguments(args), (a, b)));
        }
        STATUS_SUCCESS
    }
}

/// What [`CommandFactory`] says of a handler of this shape with two decoded parameters.
pub proof fn lemma_plain_2<Func, A, B>(
    handler: Func,
    context: Context,
    arguments: Seq<Seq<char>>,
    text: Seq<char>,
) where
    Func: Fn(A, B),
    A: FromArma,
    B: FromArma,
    ensures
        CommandFactory::<(A, B), ()>::arity(&handler) == 2,
        CommandFactory::<(A, B), ()>::ready(&handler) <==> (
            forall|a: A, b: B| call_requires(handler, (a, b))
        ),
        CommandFactory::<(A, B), ()>::returns_value(&handler) == false,
        CommandFactory::<(A, B), ()>::failure_position(&handler, arguments)
            == <(A, B) as FromArguments>::failure_position(arguments),
        CommandFactory::<(A, B), ()>::renders(&handler, context, arguments, text) <==> (
            exists|values: (A, B)|
                #![trigger <(A, B) as FromArguments>::decodes_to(arguments, values)]
                <(A, B) as FromArguments>::decodes_to(arguments, values)
                    && call_ensures(handler, (values.0, values.1), ())
                    && text == Seq::<char>::empty()
        ),
{
}

impl<Func, A, B, C> CommandFactory<(A, B, C), ()> for Func where
    Func: Fn(A, B, C),
    A: FromArma,
    B: FromArma,
    C: FromArma,
{
    open spec fn arity(&self) -> nat {
        3
    }

    open spec fn ready(&self) -> bool {
        forall|a: A, b: B, c: C| call_requires(*self, (a, b, c))
    }

    open spec fn failure_position(&self, arguments: Seq<Seq<char>>) -> Option<nat> {
        <(A, B, C) as FromArguments>::failure_position(arguments)
    }

    open spec fn returns_value(&self) -> bool {
        false
    }

    open spec fn renders(
        &self,
        context: Context,
        arguments: Seq<Seq<char>>,
        text: Seq<char>,
    ) -> bool {
        exists|values: (A, B, C)|
            #![trigger <(A, B, C) as FromArguments>::decodes_to(arguments, values)]
            <(A, B, C) as FromArguments>::decodes_to(arguments, values)
                && call_ensures(*self, (values.0, values.1, values.2), ())
                && text == Seq::<char>::empty()
    }

    fn call(
        &self,
        context: Context,
        output: &mut [libc::c_char],
        size: libc::size_t,
        args: Option<&[String]>,
        count: Option<libc::c_int>,
    ) -> (status: libc::c_int) {
        let (a, b, c) = match take::<(A, B, C)>(args, count) {
            Ok(values) => values,
            Err(status) => {
                return status;
            },
        };
        (self)(a, b, c);
        assert(self.renders(context, arguments(args), Seq::empty())) by {
            assert(<(A, B, C) as FromArguments>::decodes_to(arguments(args), (a, b, c)));
        }
        STATUS_SUCCESS
    }
}

/// What [`CommandFactory`] says of a handler of this shape with three decoded parameters.
pub proof fn lemma_plain_3<Func, A, B, C>(
    handler: Func,
    context: Context,
    arguments: Seq<Seq<char>>,
    text: Seq<char>,
) where
    Func: Fn(A, B, C),
    A: FromArma,
    B: FromArma,
    C: FromArma,
    ensures
        CommandFactory::<(A, B, C), ()>::arity(&handler) == 3,
        CommandFactory::<(A, B, C), ()>::ready(&handler) <==> (
            forall|a: A, b: B, c: C| call_requires(handler, (a, b, c))
        ),
        CommandFactory::<(A, B, C), ()>::returns_value(&handler) == false,
        CommandFactory::<(A, B, C), ()>::failure_position(&handler, arguments)
            == <(A, B, C) as FromArguments>::failure_position(arguments),
        CommandFactory::<(A, B, C), ()>::renders(&handler, context, arguments, text) <==> (
            exists|values: (A, B, C)|
                #![trigger <(A, B, C) as FromArguments>::decodes_to(arguments, values)]
                <(A, B, C) as FromArguments>::decodes_to(arguments, values)
                    && call_ensures(handler, (values.0, values.1, values.2), ())
                    && text == Seq::<char>::empty()
        ),
{
}

impl<Func, A, B, C, D> CommandFactory<(A, B, C, D), ()> for Func where
    Func: Fn(A, B, C, D),
    A: FromArma,
    B: FromArma,
    C: FromArma,
    D: FromArma,
{
    open spec fn arity(&self) -> nat {
        4
    }

    open spec fn ready(&self) -> bool {
        forall|a: A, b: B, c: C, d: D| call_requires(*self, (a, b, c, d))
    }

    open spec fn failure_position(&self, arguments: Seq<Seq<char>>) -> Option<nat> {
        <(A, B, C, D) as FromArguments>::failure_position(arguments)
    }

    open spec fn returns_value(&self) -> bool {
        false
    }

    open spec fn renders(
        &self,
        context: Context,
        arguments: Seq<Seq<char>>,
        text: Seq<char>,
    ) -> bool {
        exists|values: (A, B, C, D)|
            #![trigger <(A, B, C, D) as FromArguments>::decodes_to(arguments, values)]
            <(A, B, C, D) as FromArguments>::decodes_to(arguments, values)
                && call_ensures(*self, (values.0, values.1, values.2, values.3), ())
                && text == Seq::<char>::empty()
    }

    fn call(
        &self,
        context: Context,
        output: &mut [libc::c_char],
        size: libc::size_t,
        args: Option<&[String]>,
        count: Option<libc::c_int>,
    ) -> (status: libc::c_int) {
        let (a, b, c, d) = match take::<(A, B, C, D)>(args, count) {
            Ok(values) => values,
            Err(status) => {
                return status;
            },
        };
        (self)(a, b, c, d);
        assert(self.renders(context, arguments(args), Seq::empty())) by {
            assert(<(A, B, C, D) as FromArguments>::decodes_to(arguments(args), (a, b, c, d)));
        }
        STATUS_SUCCESS
    }
}

/// What [`CommandFactory`] says of a handler of this shape with four decoded parameters.
pub proof fn lemma_plain_4<Func, A, B, C, D>(
    handler: Func,
    context: Context,
    arguments: Seq<Seq<char>>,
    text: Seq<char>,
) where
    Func: Fn(A, B, C, D),
    A: FromArma,
    B: FromArma,
    C: FromArma,
    D: FromArma,
    ensures
        CommandFactory::<(A, B, C, D), ()>::arity(&handler) == 4,
        CommandFactory::<(A, B, C, D), ()>::ready(&handler) <==> (
            forall|a: A, b: B, c: C, d: D| call_requires(handler, (a, b, c, d))
        ),
        CommandFactory::<(A, B, C, D), ()>::returns_value(&handler) == false,
        CommandFactory::<(A, B, C, D), ()>::failure_position(&handler, arguments)
            == <(A, B, C, D) as FromArguments>::failure_position(arguments),
        CommandFactory::<(A, B, C, D), ()>::renders(&handler, context, arguments, text) <==> (
            exists|values: (A, B, C, D)|
                #![trigger <(A, B, C, D) as FromArguments>::decodes_to(arguments, values)]
                <(A, B, C, D) as FromArguments>::decodes_to(arguments, values)
                    && call_ensures(handler, (values.0, values.1, values.2, values.3), ())
                    && text == Seq::<char>::empty()
        ),
{
}

impl<Func, A, B, C, D, E> CommandFactory<(A, B, C, D, E), ()> for Func where
    Func: Fn(A, B, C, D, E),
    A: FromArma,
    B: FromArma,
    C: FromArma,
    D: FromArma,
    E: FromArma,
{
    open spec fn arity(&self) -> nat {
        5
    }

    open spec fn ready(&self) -> bool {
        forall|a: A, b: B, c: C, d: D, e: E| call_requires(*self, (a, b, c, d, e))
    }

    open spec fn failure_position(&self, arguments: Seq<Seq<char>>) -> Option<nat> {
        <(A, B, C, D, E) as FromArguments>::failure_position(arguments)
    }

    open spec fn returns_value(&self) -> bool {
        false
    }

    open spec fn renders(
        &self,
        context: Context,
        arguments: Seq<Seq<char>>,
        text: Seq<char>,
    ) -> bool {
        exists|values: (A, B, C, D, E)|
            #![trigger <(A, B, C, D, E) as FromArguments>::decodes_to(arguments, values)]
            <(A, B, C, D, E) as FromArguments>::decodes_to(arguments, values)
                && call_ensures(*self, (values.0, values.1, values.2, values.3, values.4), ())
                && text == Seq::<char>::empty()
    }

    fn call(
        &self,
        context: Context,
        output: &mut [libc::c_char],
        size: libc::size_t,
        args: Option<&[String]>,
        count: Option<libc::c_int>,
    ) -> (status: libc::c_int) {
        let (a, b, c, d, e) = match take::<(A, B, C, D, E)>(args, count) {
            Ok(values) => values,
            Err(status) => {
                return status;
            },
        };
        (self)(a, b, c, d, e);
        assert(self.renders(context, arguments(args), Seq::empty())) by {
            assert(<(A, B, C, D, E) as FromArguments>::decodes_to(arguments(args), (a, b, c, d, e)));
        }
        STATUS_SUCCESS
    }
}

/// What [`CommandFactory`] says of a handler of this shape with five decoded parameters.
pub proof fn lemma_plain_5<Func, A, B, C, D, E>(
    handler: Func,
    context: Context,
    arguments: Seq<Seq<char>>,
    text: Seq<char>,
) where
    Func: Fn(A, B, C, D, E),
    A: FromArma,
    B: FromArma,
    C: FromArma,
    D: FromArma,
    E: FromArma,
    ensures
        CommandFactory::<(A, B, C, D, E), ()>::arity(&handler) == 5,
        CommandFactory::<(A, B, C, D, E), ()>::ready(&handler) <==> (
            forall|a: A, b: B, c: C, d: D, e: E| call_requires(handler, (a, b, c, d, e))
        ),
        CommandFactory::<(A, B, C, D, E), ()>::returns_value(&handler) == false,
        CommandFactory::<(A, B, C, D, E), ()>::failure_position(&handler, arguments)
            == <(A, B, C, D, E) as FromArguments>::failure_position(arguments),
        CommandFactory::<(A, B, C, D, E), ()>::renders(&handler, context, arguments, text) <==> (
            exists|values: (A, B, C, D, E)|
                #![trigger <(A, B, C, D, E) as FromArguments>::decodes_to(arguments, values)]
                <(A, B, C, D, E) as FromArguments>::decodes_to(arguments, values)
                    && call_ensures(handler, (values.0, values.1, values.2, values.3, values.4), ())
                    && text == Seq::<char>::empty()
        ),
{
}

impl<Func, A, B, C, D, E, F> CommandFactory<(A, B, C, D, E, F), ()> for Func where
    Func: Fn(A, B, C, D, E, F),
    A: FromArma,
    B: FromArma,
    C: FromArma,
    D: FromArma,
    E: FromArma,
    F: FromArma,
{
    open spec fn arity(&self) -> nat {
        6
    }

    open spec fn ready(&self) -> bool {
        forall|a: A, b: B, c: C, d: D, e: E, f: F| call_requires(*self, (a, b, c, d, e, f))
    }

    open spec fn failure_position(&self, arguments: Seq<Seq<char>>) -> Option<nat> {
        <(A, B, C, D, E, F) as FromArguments>::failure_position(arguments)
    }

    open spec fn returns_value(&self) -> bool {
        false
    }

    open spec fn renders(
        &self,
        context: Context,
        arguments: Seq<Seq<char>>,
        text: Seq<char>,
    ) -> bool {
        exists|values: (A, B, C, D, E, F)|
            #![trigger <(A, B, C, D, E, F) as FromArguments>::decodes_to(arguments, values)]
            <(A, B, C, D, E, F) as FromArguments>::decodes_to(arguments, values)
                && call_ensures(*self, (values.0, values.1, values.2, values.3, values.4, values.5), ())
                && text == Seq::<char>::empty()
    }

    fn call(
        &self,
        context: Context,
        output: &mut [libc::c_char],
        size: libc::size_t,
        args: Option<&[String]>,
        count: Option<libc::c_int>,
    ) -> (status: libc::c_int) {
        let (a, b, c, d, e, f) = match take::<(A, B, C, D, E, F)>(args, count) {
            Ok(values) => values,
            Err(status) => {
                return status;
            },
        };
        (self)(a, b, c, d, e, f);
        assert(self.renders(context, arguments(args), Seq::empty())) by {
            assert(<(A, B, C, D, E, F) as FromArguments>::decodes_to(arguments(args), (a, b, c, d, e, f)));
        }
        STATUS_SUCCESS
    }
}

/// What [`CommandFactory`] says of a handler of this shape with six decoded parameters.
pub proof fn lemma_plain_6<Func, A, B, C, D, E, F>(
    handler: Func,
    context: Context,
    arguments: Seq<Seq<char>>,
    text: Seq<char>,
) where
    Func: Fn(A, B, C, D, E, F),
    A: FromArma,
    B: FromArma,
    C: FromArma,
    D: FromArma,
    E: FromArma,
    F: FromArma,
    ensures
        CommandFactory::<(A, B, C, D, E, F), ()>::arity(&handler) == 6,
        CommandFactory::<(A, B, C, D, E, F), ()>::ready(&handler) <==> (
            forall|a: A, b: B, c: C, d: D, e: E, f: F| call_requires(handler, (a, b, c, d, e, f))
        ),
        CommandFactory::<(A, B, C, D, E, F), ()>::returns_value(&handler) == false,
        CommandFactory::<(A, B, C, D, E, F), ()>::failure_position(&handler, arguments)
            == <(A, B, C, D, E, F) as FromArguments>::failure_position(arguments),
        CommandFactory::<(A, B, C, D, E, F), ()>::renders(&handler, context, arguments, text) <==> (
            exists|values: (A, B, C, D, E, F)|
                #![trigger <(A, B, C, D, E, F) as FromArguments>::decodes_to(arguments, values)]
                <(A, B, C, D, E, F) as FromArguments>::decodes_to(arguments, values)
                    && call_ensures(handler, (values.0, values.1, values.2, values.3, values.4, values.5), ())
                    && text == Seq::<char>::empty()
        ),
{
}

impl<Func, A, B, C, D, E, F, G> CommandFactory<(A, B, C, D, E, F, G), ()> for Func where
    Func: Fn(A, B, C, D, E, F, G),
    A: FromArma,
    B: FromArma,
    C: FromArma,
    D: FromArma,
    E: FromArma,
    F: FromArma,
    G: FromArma,
{
    open spec fn arity(&self) -> nat {
        7
    }

    open spec fn ready(&self) -> bool {
        forall|a: A, b: B, c: C, d: D, e: E, f: F, g: G| call_requires(*self, (a, b, c, d, e, f, g))
    }

    open spec fn failure_position(&self, arguments: Seq<Seq<char>>) -> Option<nat> {
        <(A, B, C, D, E, F, G) as FromArguments>::failure_position(arguments)
    }

    open spec fn returns_value(&self) -> bool {
        false
    }

    open spec fn renders(
        &self,
        context: Context,
        arguments: Seq<Seq<char>>,
        text: Seq<char>,
    ) -> bool {
        exists|values: (A, B, C, D, E, F, G)|
            #![trigger <(A, B, C, D, E, F, G) as FromArguments>::decodes_to(arguments, values)]
            <(A, B, C, D, E, F, G) as FromArguments>::decodes_to(arguments, values)
                && call_ensures(*self, (values.0, values.1, values.2, values.3, values.4, values.5, values.6), ())
                && text == Seq::<char>::empty()
    }

    fn call(
        &self,
        context: Context,
        output: &mut [libc::c_char],
        size: libc::size_t,
        args: Option<&[String]>,
        count: Option<libc::c_int>,
    ) -> (status: libc::c_int) {
        let (a, b, c, d, e, f, g) = match take::<(A, B, C, D, E, F, G)>(args, count) {
            Ok(values) => values,
            Err(status) => {
                return status;
            },
        };
        (self)(a, b, c, d, e, f, g);
        assert(self.renders(context, arguments(args), Seq::empty())) by {
            assert(<(A, B, C, D, E, F, G) as FromArguments>::decodes_to(arguments(args), (a, b, c, d, e, f, g)));
        }
        STATUS_SUCCESS
    }
}

/// What [`CommandFactory`] says of a handler of this shape with seven decoded parameters.
pub proof fn lemma_plain_7<Func, A, B, C, D, E, F, G>(
    handler: Func,
    context: Context,
    arguments: Seq<Seq<char>>,
    text: Seq<char>,
) where
    Func: Fn(A, B, C, D, E, F, G),
    A: FromArma,
    B: FromArma,
    C: FromArma,
    D: FromArma,
    E: FromArma,
    F: FromArma,
    G: FromArma,
    ensures
        CommandFactory::<(A, B, C, D, E, F, G), ()>::arity(&handler) == 7,
        CommandFactory::<(A, B, C, D, E, F, G), ()>::ready(&handler) <==> (
            forall|
                a: A,
                b: B,
                c: C,
                d: D,
                e: E,
                f: F,
                g: G,
            | call_requires(handler, (a, b, c, d, e, f, g))
        ),
        CommandFactory::<(A, B, C, D, E, F, G), ()>::returns_value(&handler) == false,
        CommandFactory::<(A, B, C, D, E, F, G), ()>::failure_position(&handler, arguments)
            == <(A, B, C, D, E, F, G) as FromArguments>::failure_position(arguments),
        CommandFactory::<(A, B, C, D, E, F, G), ()>::renders(&handler, context, arguments, text) <==> (
            exists|values: (A, B, C, D, E, F, G)|
                #![trigger <(A, B, C, D, E, F, G) as FromArguments>::decodes_to(arguments, values)]
                <(A, B, C, D, E, F, G) as FromArguments>::decodes_to(arguments, values)
                    && call_ensures(handler, (values.0, values.1, values.2, values.3, values.4, values.5, values.6), ())
                    && text == Seq::<char>::empty()
        ),
{
}

impl<Func, A, B, C, D, E, F, G, H> CommandFactory<(A, B, C, D, E, F, G, H), ()> for Func where
    Func: Fn(A, B, C, D, E, F, G, H),
    A: FromArma,
    B: FromArma,
    C: FromArma,
    D: FromArma,
    E: FromArma,
    F: FromArma,
    G: FromArma,
    H: FromArma,
{
    open spec fn arity(&self) -> nat {
        8
    }

    open spec fn ready(&self) -> bool {
        forall|
            a: A,
            b: B,
            c: C,
            d: D,
            e: E,
            f: F,
            g: G,
            h: H,
        | call_requires(*self, (a, b, c, d, e, f, g, h))
    }

    open spec fn failure_position(&self, arguments: Seq<Seq<char>>) -> Option<nat> {
        <(A, B, C, D, E, F, G, H) as FromArguments>::failure_position(arguments)
    }

    open spec fn returns_value(&self) -> bool {
        false
    }

    open spec fn renders(
        &self,
        context: Context,
        arguments: Seq<Seq<char>>,
        text: Seq<char>,
    ) -> bool {
        exists|values: (A, B, C, D, E, F, G, H)|
            #![trigger <(A, B, C, D, E, F, G, H) as FromArguments>::decodes_to(arguments, values)]
            <(A, B, C, D, E, F, G, H) as FromArguments>::decodes_to(arguments, values)
                && call_ensures(*self, (values.0, values.1, values.2, values.3, values.4, values.5, values.6, values.7), ())
                && text == Seq::<char>::empty()
    }

    fn call(
        &self,
        context: Context,
        output: &mut [libc::c_char],
        size: libc::size_t,
        args: Option<&[String]>,
        count: Option<libc::c_int>,
    ) -> (status: libc::c_int) {
        let (a, b, c, d, e, f, g, h) = match take::<(A, B, C, D, E, F, G, H)>(args, count) {
            Ok(values) => values,
            Err(status) => {
                return status;
            },
        };
        (self)(a, b, c, d, e, f, g, h);
        assert(self.renders(context, arguments(args), Seq::empty())) by {
            assert(<(A, B, C, D, E, F, G, H) as FromArguments>::decodes_to(arguments(args), (a, b, c, d, e, f, g, h)));
        }
        STATUS_SUCCESS
    }
}

/// What [`CommandFactory`] says of a handler of this shape with eight decoded parameters.
pub proof fn lemma_plain_8<Func, A, B, C, D, E, F, G, H>(
    handler: Func,
    context: Context,
    arguments: Seq<Seq<char>>,
    text: Seq<char>,
) where
    Func: Fn(A, B, C, D, E, F, G, H),
    A: FromArma,
    B: FromArma,
    C: FromArma,
    D: FromArma,
    E: FromArma,
    F: FromArma,
    G: FromArma,
    H: FromArma,
    ensures
        CommandFactory::<(A, B, C, D, E, F, G, H), ()>::arity(&handler) == 8,
        CommandFactory::<(A, B, C, D, E, F, G, H), ()>::ready(&handler) <==> (
            forall|
                a: A,
                b: B,
                c: C,
                d: D,
                e: E,
                f: F,
                g: G,
                h: H,
            | call_requires(handler, (a, b, c, d, e, f, g, h))
        ),
        CommandFactory::<(A, B, C, D, E, F, G, H), ()>::returns_value(&handler) == false,
        CommandFactory::<(A, B, C, D, E, F, G, H), ()>::failure_position(&handler, arguments)
            == <(A, B, C, D, E, F, G, H) as FromArguments>::failure_position(arguments),
        CommandFactory::<(A, B, C, D, E, F, G, H), ()>::renders(&handler, context, arguments, text) <==> (
            exists|values: (A, B, C, D, E, F, G, H)|
                #![trigger <(A, B, C, D, E, F, G, H) as FromArguments>::decodes_to(arguments, values)]
                <(A, B, C, D, E, F, G, H) as FromArguments>::decodes_to(arguments, values)
                    && call_ensures(handler, (values.0, values.1, values.2, values.3, values.4, values.5, values.6, values.7), ())
                    && text == Seq::<char>::empty()
        ),
{
}

impl<Func, A, B, C, D, E, F, G, H, I> CommandFactory<(A, B, C, D, E, F, G, H, I), ()> for Func where
    Func: Fn(A, B, C, D, E, F, G, H, I),
    A: FromArma,
    B: FromArma,
    C: FromArma,
    D: FromArma,
    E: FromArma,
    F: FromArma,
    G: FromArma,
    H: FromArma,
    I: FromArma,
{
    open spec fn arity(&self) -> nat {
        9
    }

    open spec fn ready(&self) -> bool {
        forall|
            a: A,
            b: B,
            c: C,
            d: D,
            e: E,
            f: F,
            g: G,
            h: H,
            i: I,
        | call_requires(*self, (a, b, c, d, e, f, g, h, i))
    }

    open spec fn failure_position(&self, arguments: Seq<Seq<char>>) -> Option<nat> {
        <(A, B, C, D, E, F, G, H, I) as FromArguments>::failure_position(arguments)
    }

    open spec fn returns_value(&self) -> bool {
        false
    }

    open spec fn renders(
        &self,
        context: Context,
        arguments: Seq<Seq<char>>,
        text: Seq<char>,
    ) -> bool {
        exists|values: (A, B, C, D, E, F, G, H, I)|
            #![trigger <(A, B, C, D, E, F, G, H, I) as FromArguments>::decodes_to(arguments, values)]
            <(A, B, C, D, E, F, G, H, I) as FromArguments>::decodes_to(arguments, values)
                && call_ensures(*self, (values.0, values.1, values.2, values.3, values.4, values.5, values.6, values.7, values.8), ())
                && text == Seq::<char>::empty()
    }

    fn call(
        &self,
        context: Context,
        output: &mut [libc::c_char],
        size: libc::size_t,
        args: Option<&[String]>,
        count: Option<libc::c_int>,
    ) -> (status: libc::c_int) {
        let (a, b, c, d, e, f, g, h, i) = match take::<(A, B, C, D, E, F, G, H, I)>(args, count) {
            Ok(values) => values,
            Err(status) => {
                return status;
            },
        };
        (self)(a, b, c, d, e, f, g, h, i);
        assert(self.renders(context, arguments(args), Seq::empty())) by {
            assert(<(A, B, C, D, E, F, G, H, I) as FromArguments>::decodes_to(arguments(args), (a, b, c, d, e, f, g, h, i)));
        }
        STATUS_SUCCESS
    }
}

/// What [`CommandFactory`] says of a handler of this shape with nine decoded parameters.
pub proof fn lemma_plain_9<Func, A, B, C, D, E, F, G, H, I>(
    handler: Func,
    context: Context,
    arguments: Seq<Seq<char>>,
    text: Seq<char>,
) where
    Func: Fn(A, B, C, D, E, F, G, H, I),
    A: FromArma,
    B: FromArma,
    C: FromArma,
    D: FromArma,
    E: FromArma,
    F: FromArma,
    G: FromArma,
    H: FromArma,
    I: FromArma,
    ensures
        CommandFactory::<(A, B, C, D, E, F, G, H, I), ()>::arity(&handler) == 9,
        CommandFactory::<(A, B, C, D, E, F, G, H, I), ()>::ready(&handler) <==> (
            forall|
                a: A,
                b: B,
                c: C,
                d: D,
                e: E,
                f: F,
                g: G,
                h: H,
                i: I,
            | call_requires(handler, (a, b, c, d, e, f, g, h, i))
        ),
        CommandFactory::<(A, B, C, D, E, F, G, H, I), ()>::returns_value(&handler) == false,
        CommandFactory::<(A, B, C, D, E, F, G, H, I), ()>::failure_position(&handler, arguments)
            == <(A, B, C, D, E, F, G, H, I) as FromArguments>::failure_position(arguments),
        CommandFactory::<(A, B, C, D, E, F, G, H, I), ()>::renders(&handler, context, arguments, text) <==> (
            exists|values: (A, B, C, D, E, F, G, H, I)|
                #![trigger <(A, B, C, D, E, F, G, H, I) as FromArguments>::decodes_to(arguments, values)]
                <(A, B, C, D, E, F, G, H, I) as FromArguments>::decodes_to(arguments, values)
                    && call_ensures(handler, (values.0, values.1, values.2, values.3, values.4, values.5, values.6, values.7, values.8), ())
                    && text == Seq::<char>::empty()
        ),
{
}

impl<
    Func,
    A,
    B,
    C,
    D,
    E,
    F,
    G,
    H,
    I,
    J,
> CommandFactory<(A, B, C, D, E, F, G, H, I, J), ()> for Func where
    Func: Fn(A, B, C, D, E, F, G, H, I, J),
    A: FromArma,
    B: FromArma,
    C: FromArma,
    D: FromArma,
    E: FromArma,
    F: FromArma,
    G: FromArma,
    H: FromArma,
    I: FromArma,
    J: FromArma,
{
    open spec fn arity(&self) -> nat {
        10
    }

    open spec fn ready(&self) -> bool {
        forall|
            a: A,
            b: B,
            c: C,
            d: D,
            e: E,
            f: F,
            g: G,
            h: H,
            i: I,
            j: J,
        | call_requires(*self, (a, b, c, d, e, f, g, h, i, j))
    }

    open spec fn failure_position(&self, arguments: Seq<Seq<char>>) -> Option<nat> {
        <(A, B, C, D, E, F, G, H, I, J) as FromArguments>::failure_position(arguments)
    }

    open spec fn returns_value(&self) -> bool {
        false
    }

    open spec fn renders(
        &self,
        context: Context,
        arguments: Seq<Seq<char>>,
        text: Seq<char>,
    ) -> bool {
        exists|values: (A, B, C, D, E, F, G, H, I, J)|
            #![trigger <(A, B, C, D, E, F, G, H, I, J) as FromArguments>::decodes_to(arguments, values)]
            <(A, B, C, D, E, F, G, H, I, J) as FromArguments>::decodes_to(arguments, values)
                && call_ensures(*self, (values.0, values.1, values.2, values.3, values.4, values.5, values.6, values.7, values.8, values.9), ())
                && text == Seq::<char>::empty()
    }

    fn call(
        &self,
        context: Context,
        output: &mut [libc::c_char],
        size: libc::size_t,
        args: Option<&[String]>,
        count: Option<libc::c_int>,
    ) -> (status: libc::c_int) {
        let (a, b, c, d, e, f, g, h, i, j) = match take::<(A, B, C, D, E, F, G, H, I, J)>(args, count) {
            Ok(values) => values,
            Err(status) => {
                return status;
            },
        };
        (self)(a, b, c, d, e, f, g, h, i, j);
        assert(self.renders(context, arguments(args), Seq::empty())) by {
            assert(<(A, B, C, D, E, F, G, H, I, J) as FromArguments>::decodes_to(arguments(args), (a, b, c, d, e, f, g, h, i, j)));
        }
        STATUS_SUCCESS
    }
}

/// What [`CommandFactory`] says of a handler of this shape with ten decoded parameters.
pub proof fn lemma_plain_10<Func, A, B, C, D, E, F, G, H, I, J>(
    handler: Func,
    context: Context,
    arguments: Seq<Seq<char>>,
    text: Seq<char>,
) where
    Func: Fn(A, B, C, D, E, F, G, H, I, J),
    A: FromArma,
    B: FromArma,
    C: FromArma,
    D: FromArma,
    E: FromArma,
    F: FromArma,
    G: FromArma,
    H: FromArma,
    I: FromArma,
    J: FromArma,
    ensures
        CommandFactory::<(A, B, C, D, E, F, G, H, I, J), ()>::arity(&handler) == 10,
        CommandFactory::<(A, B, C, D, E, F, G, H, I, J), ()>::ready(&handler) <==> (
            forall|
                a: A,
                b: B,
                c: C,
                d: D,
                e: E,
                f: F,
                g: G,
                h: H,
                i: I,
                j: J,
            | call_requires(handler, (a, b, c, d, e, f, g, h, i, j))
        ),
        CommandFactory::<(A, B, C, D, E, F, G, H, I, J), ()>::returns_value(&handler) == false,
        CommandFactory::<(A, B, C, D, E, F, G, H, I, J), ()>::failure_position(&handler, arguments)
            == <(A, B, C, D, E, F, G, H, I, J) as FromArguments>::failure_position(arguments),
        CommandFactory::<(A, B, C, D, E, F, G, H, I, J), ()>::renders(&handler, context, arguments, text) <==> (
            exists|values: (A, B, C, D, E, F, G, H, I, J)|
                #![trigger <(A, B, C, D, E, F, G, H, I, J) as FromArguments>::decodes_to(arguments, values)]
                <(A, B, C, D, E, F, G, H, I, J) as FromArguments>::decodes_to(arguments, values)
                    && call_ensures(handler, (values.0, values.1, values.2, values.3, values.4, values.5, values.6, values.7, values.8, values.9), ())
                    && text == Seq::<char>::empty()
        ),
{
}

impl<
    Func,
    A,
    B,
    C,
    D,
    E,
    F,
    G,
    H,
    I,
    J,
    K,
> CommandFactory<(A, B, C, D, E, F, G, H, I, J, K), ()> for Func where
    Func: Fn(A, B, C, D, E, F, G, H, I, J, K),
    A: FromArma,
    B: FromArma,
    C: FromArma,
    D: FromArma,
    E: FromArma,
    F: FromArma,
    G: FromArma,
    H: FromArma,
    I: FromArma,
    J: FromArma,
    K: FromArma,
{
    open spec fn arity(&self) -> nat {
        11
    }

    open spec fn ready(&self) -> bool {
        forall|
            a: A,
            b: B,
            c: C,
            d: D,
            e: E,
            f: F,
            g: G,
            h: H,
            i: I,
            j: J,
            k: K,
        | call_requires(*self, (a, b, c, d, e, f, g, h, i, j, k))
    }

    open spec fn failure_position(&self, arguments: Seq<Seq<char>>) -> Option<nat> {
        <(A, B, C, D, E, F, G, H, I, J, K) as FromArguments>::failure_position(arguments)
    }

    open spec fn returns_value(&self) -> bool {
        false
    }

    open spec fn renders(
        &self,
        context: Context,
        arguments: Seq<Seq<char>>,
        text: Seq<char>,
    ) -> bool {
        exists|values: (A, B, C, D, E, F, G, H, I, J, K)|
            #![trigger <(A, B, C, D, E, F, G, H, I, J, K) as FromArguments>::decodes_to(arguments, values)]
            <(A, B, C, D, E, F, G, H, I, J, K) as FromArguments>::decodes_to(arguments, values)
                && call_ensures(*self, (values.0, values.1, values.2, values.3, values.4, values.5, values.6, values.7, values.8, values.9, values.10), ())
                && text == Seq::<char>::empty()
    }

    fn call(
        &self,
        context: Context,
        output: &mut [libc::c_char],
        size: libc::size_t,
        args: Option<&[String]>,
        count: Option<libc::c_int>,
    ) -> (status: libc::c_int) {
        let (a, b, c, d, e, f, g, h, i, j, k) = match take::<(A, B, C, D, E, F, G, H, I, J, K)>(args, count) {
            Ok(values) => values,
            Err(status) => {
                return status;
            },
        };
        (self)(a, b, c, d, e, f, g, h, i, j, k);
        assert(self.renders(context, arguments(args), Seq::empty())) by {
            assert(<(A, B, C, D, E, F, G, H, I, J, K) as FromArguments>::decodes_to(arguments(args), (a, b, c, d, e, f, g, h, i, j, k)));
        }
        STATUS_SUCCESS
    }
}

/// What [`CommandFactory`] says of a handler of this shape with eleven decoded parameters.
pub proof fn lemma_plain_11<Func, A, B, C, D, E, F, G, H, I, J, K>(
    handler: Func,
    context: Context,
    arguments: Seq<Seq<char>>,
    text: Seq<char>,
) where
    Func: Fn(A, B, C, D, E, F, G, H, I, J, K),
    A: FromArma,
    B: FromArma,
    C: FromArma,
    D: FromArma,
    E: FromArma,
    F: FromArma,
    G: FromArma,
    H: FromArma,
    I: FromArma,
    J: FromArma,
    K: FromArma,
    ensures
        CommandFactory::<(A, B, C, D, E, F, G, H, I, J, K), ()>::arity(&handler) == 11,
        CommandFactory::<(A, B, C, D, E, F, G, H, I, J, K), ()>::ready(&handler) <==> (
            forall|
                a: A,
                b: B,
                c: C,
                d: D,
                e: E,
                f: F,
                g: G,
                h: H,
                i: I,
                j: J,
                k: K,
            | call_requires(handler, (a, b, c, d, e, f, g, h, i, j, k))
        ),
        CommandFactory::<(A, B, C, D, E, F, G, H, I, J, K), ()>::returns_value(&handler) == false,
        CommandFactory::<(A, B, C, D, E, F, G, H, I, J, K), ()>::failure_position(&handler, arguments)
            == <(A, B, C, D, E, F, G, H, I, J, K) as FromArguments>::failure_position(arguments),
        CommandFactory::<(A, B, C, D, E, F, G, H, I, J, K), ()>::renders(&handler, context, arguments, text) <==> (
            exists|values: (A, B, C, D, E, F, G, H, I, J, K)|
                #![trigger <(A, B, C, D, E, F, G, H, I, J, K) as FromArguments>::decodes_to(arguments, values)]
                <(A, B, C, D, E, F, G, H, I, J, K) as FromArguments>::decodes_to(arguments, values)
                    && call_ensures(handler, (values.0, values.1, values.2, values.3, values.4, values.5, values.6, values.7, values.8, values.9, values.10), ())
                    && text == Seq::<char>::empty()
        ),
{
}

impl<
    Func,
    A,
    B,
    C,
    D,
    E,
    F,
    G,
    H,
    I,
    J,
    K,
    L,
> CommandFactory<(A, B, C, D, E, F, G, H, I, J, K, L), ()> for Func where
    Func: Fn(A, B, C, D, E, F, G, H, I, J, K, L),
    A: FromArma,
    B: FromArma,
    C: FromArma,
    D: FromArma,
    E: FromArma,
    F: FromArma,
    G: FromArma,
    H: FromArma,
    I: FromArma,
    J: FromArma,
    K: FromArma,
    L: FromArma,
{
    open spec fn arity(&self) -> nat {
        12
    }

    open spec fn ready(&self) -> bool {
        forall|
            a: A,
            b: B,
            c: C,
            d: D,
            e: E,
            f: F,
            g: G,
            h: H,
            i: I,
            j: J,
            k: K,
            l: L,
        | call_requires(*self, (a, b, c, d, e, f, g, h, i, j, k, l))
    }

    open spec fn failure_position(&self, arguments: Seq<Seq<char>>) -> Option<nat> {
        <(A, B, C, D, E, F, G, H, I, J, K, L) as FromArguments>::failure_position(arguments)
    }

    open spec fn returns_value(&self) -> bool {
        false
    }

    open spec fn renders(
        &self,
        context: Context,
        arguments: Seq<Seq<char>>,
        text: Seq<char>,
    ) -> bool {
        exists|values: (A, B, C, D, E, F, G, H, I, J, K, L)|
            #![trigger <(A, B, C, D, E, F, G, H, I, J, K, L) as FromArguments>::decodes_to(arguments, values)]
            <(A, B, C, D, E, F, G, H, I, J, K, L) as FromArguments>::decodes_to(arguments, values)
                && call_ensures(*self, (values.0, values.1, values.2, values.3, values.4, values.5, values.6, values.7, values.8, values.9, values.10, values.11), ())
                && text == Seq::<char>::empty()
    }

    fn call(
        &self,
        context: Context,
        output: &mut [libc::c_char],
        size: libc::size_t,
        args: Option<&[String]>,
        count: Option<libc::c_int>,
    ) -> (status: libc::c_int) {
        let (a, b, c, d, e, f, g, h, i, j, k, l) = match take::<(A, B, C, D, E, F, G, H, I, J, K, L)>(args, count) {
            Ok(values) => values,
            Err(status) => {
                return status;
            },
        };
        (self)(a, b, c, d, e, f, g, h, i, j, k, l);
        assert(self.renders(context, arguments(args), Seq::empty())) by {
            assert(<(A, B, C, D, E, F, G, H, I, J, K, L) as FromArguments>::decodes_to(arguments(args), (a, b, c, d, e, f, g, h, i, j, k, l)));
        }
        STATUS_SUCCESS
    }
}

/// What [`CommandFactory`] says of a handler of this shape with twelve decoded parameters.
pub proof fn lemma_plain_12<Func, A, B, C, D, E, F, G, H, I, J, K, L>(
    handler: Func,
    context: Context,
    arguments: Seq<Seq<char>>,
    text: Seq<char>,
) where
    Func: Fn(A, B, C, D, E, F, G, H, I, J, K, L),
    A: FromArma,
    B: FromArma,
    C: FromArma,
    D: FromArma,
    E: FromArma,
    F: FromArma,
    G: FromArma,
    H: FromArma,
    I: FromArma,
    J: FromArma,
    K: FromArma,
    L: FromArma,
    ensures
        CommandFactory::<(A, B, C, D, E, F, G, H, I, J, K, L), ()>::arity(&handler) == 12,
        CommandFactory::<(A, B, C, D, E, F, G, H, I, J, K, L), ()>::ready(&handler) <==> (
            forall|
                a: A,
                b: B,
                c: C,
                d: D,
                e: E,
                f: F,
                g: G,
                h: H,
                i: I,
                j: J,
                k: K,
                l: L,
            | call_requires(handler, (a, b, c, d, e, f, g, h, i, j, k, l))
        ),
        CommandFactory::<(A, B, C, D, E, F, G, H, I, J, K, L), ()>::returns_value(&handler) == false,
        CommandFactory::<(A, B, C, D, E, F, G, H, I, J, K, L), ()>::failure_position(&handler, arguments)
            == <(A, B, C, D, E, F, G, H, I, J, K, L) as FromArguments>::failure_position(arguments),
        CommandFactory::<(A, B, C, D, E, F, G, H, I, J, K, L), ()>::renders(&handler, context, arguments, text) <==> (
            exists|values: (A, B, C, D, E, F, G, H, I, J, K, L)|
                #![trigger <(A, B, C, D, E, F, G, H, I, J, K, L) as FromArguments>::decodes_to(arguments, values)]
                <(A, B, C, D, E, F, G, H, I, J, K, L) as FromArguments>::decodes_to(arguments, values)
                    && call_ensures(handler, (values.0, values.1, values.2, values.3, values.4, values.5, values.6, values.7, values.8, values.9, values.10, values.11), ())
                    && text == Seq::<char>::empty()
        ),
{
}

} // verus!
