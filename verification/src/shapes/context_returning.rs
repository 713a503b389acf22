//! Handlers that are callables that take a context first and give a result:
//! one implementation of [`CommandFactory`] for each number of decoded parameters.
//!
//! Each implementation is followed by a lemma that states of a given callable
//! what the implementation defines. A caller that names a function or a
//! closure needs it to show that its handler is ready.

use vstd::prelude::*;
use crate::command::{arguments, respond, take, CommandFactory, FromArguments};
use crate::context::Context;
use crate::convert::{FromArma, IntoArma};
use crate::value::output_text;

verus! {

impl<Func, R> CommandFactory<(Context,), R> for Func where
    Func: Fn(Context) -> R,
    R: IntoArma,
{
    open spec fn arity(&self) -> nat {
        0
    }

    open spec fn ready(&self) -> bool {
        forall|context: Context| call_requires(*self, (context,))
    }

    open spec fn failure_position(&self, arguments: Seq<Seq<char>>) -> Option<nat> {
        <() as FromArguments>::failure_position(arguments)
    }

    open spec fn returns_value(&self) -> bool {
        true
    }

    open spec fn renders(
        &self,
        context: Context,
        arguments: Seq<Seq<char>>,
        text: Seq<char>,
    ) -> bool {
        exists|ret: R|
            #[trigger] call_ensures(*self, (context,), ret)
                && text == output_text(ret.arma_value())
    }

    fn call(
        &self,
        context: Context,
        output: &mut [libc::c_char],
        size: libc::size_t,
        args: Option<&[String]>,
        count: Option<libc::c_int>,
    ) -> (status: libc::c_int) {
        let () = match take::<()>(args, count) {
            Ok(values) => values,
            Err(status) => {
                return status;
            },
        };
        let ret = (self)(context);
        assert(self.renders(context, arguments(args), output_text(ret.arma_value()))) by {
            assert(<() as FromArguments>::decodes_to(arguments(args), ()));
        }
        respond(&ret, output, size)
    }
}

/// What [`CommandFactory`] says of a handler of this shape with no decoded parameters.
pub proof fn lemma_context_returning_0<Func, R>(
    handler: Func,
    context: Context,
    arguments: Seq<Seq<char>>,
    text: Seq<char>,
) where
    Func: Fn(Context) -> R,
    R: IntoArma,
    ensures
        CommandFactory::<(Context,), R>::arity(&handler) == 0,
        CommandFactory::<(Context,), R>::ready(&handler) <==> (
            forall|context: Context| call_requires(handler, (context,))
        ),
        CommandFactory::<(Context,), R>::returns_value(&handler) == true,
        CommandFactory::<(Context,), R>::failure_position(&handler, arguments)
            == <() as FromArguments>::failure_position(arguments),
        CommandFactory::<(Context,), R>::renders(&handler, context, arguments, text) <==> (
            exists|ret: R|
                #[trigger] call_ensures(handler, (context,), ret)
                    && text == output_text(ret.arma_value())
        ),
{
}

impl<Func, A, R> CommandFactory<(Context, A), R> for Func where
    Func: Fn(Context, A) -> R,
    A: FromArma,
    R: IntoArma,
{
    open spec fn arity(&self) -> nat {
        1
    }

    open spec fn ready(&self) -> bool {
        forall|context: Context, a: A| call_requires(*self, (context, a))
    }

    open spec fn failure_position(&self, arguments: Seq<Seq<char>>) -> Option<nat> {
        <(A,) as FromArguments>::failure_position(arguments)
    }

    open spec fn returns_value(&self) -> bool {
        true
    }

    open spec fn renders(
        &self,
        context: Context,
        arguments: Seq<Seq<char>>,
        text: Seq<char>,
    ) -> bool {
        exists|values: (A,), ret: R|
            #![trigger <(A,) as FromArguments>::decodes_to(arguments, values), ret.arma_value()]
            <(A,) as FromArguments>::decodes_to(arguments, values)
                && call_ensures(*self, (context, values.0), ret)
                && text == output_text(ret.arma_value())
    }

    fn call(
        &self,
        context: Context,
        output: &mut [libc::c_char],
        size: libc::size_t,
        args: Option<&[String]>,
        count: Option<libc::c_int>,
    ) -> (status: libc::c_int) {
        let (a,) = match take::<(A,)>(args, count) {
            Ok(values) => values,
            Err(status) => {
                return status;
            },
        };
        let ret = (self)(context, a);
        assert(self.renders(context, arguments(args), output_text(ret.arma_value()))) by {
            assert(<(A,) as FromArguments>::decodes_to(arguments(args), (a,)));
        }
        respond(&ret, output, size)
    }
}

/// What [`CommandFactory`] says of a handler of this shape with one decoded parameter.
pub proof fn lemma_context_returning_1<Func, A, R>(
    handler: Func,
    context: Context,
    arguments: Seq<Seq<char>>,
    text: Seq<char>,
) where
    Func: Fn(Context, A) -> R,
    A: FromArma,
    R: IntoArma,
    ensures
        CommandFactory::<(Context, A), R>::arity(&handler) == 1,
        CommandFactory::<(Context, A), R>::ready(&handler) <==> (
            forall|context: Context, a: A| call_requires(handler, (context, a))
        ),
        CommandFactory::<(Context, A), R>::returns_value(&handler) == true,
        CommandFactory::<(Context, A), R>::failure_position(&handler, arguments)
            == <(A,) as FromArguments>::failure_position(arguments),
        CommandFactory::<(Context, A), R>::renders(&handler, context, arguments, text) <==> (
            exists|values: (A,), ret: R|
                #![trigger <(A,) as FromArguments>::decodes_to(arguments, values), ret.arma_value()]
                <(A,) as FromArguments>::decodes_to(arguments, values)
                    && call_ensures(handler, (context, values.0), ret)
                    && text == output_text(ret.arma_value())
        ),
{
}

impl<Func, A, B, R> CommandFactory<(Context, A, B), R> for Func where
    Func: Fn(Context, A, B) -> R,
    A: FromArma,
    B: FromArma,
    R: IntoArma,
{
    open spec fn arity(&self) -> nat {
        2
    }

    open spec fn ready(&self) -> bool {
        forall|context: Context, a: A, b: B| call_requires(*self, (context, a, b))
    }

    open spec fn failure_position(&self, arguments: Seq<Seq<char>>) -> Option<nat> {
        <(A, B) as FromArguments>::failure_position(arguments)
    }

    open spec fn returns_value(&self) -> bool {
        true
    }

    open spec fn renders(
        &self,
        context: Context,
        arguments: Seq<Seq<char>>,
        text: Seq<char>,
    ) -> bool {
        exists|values: (A, B), ret: R|
            #![trigger <(A, B) as FromArguments>::decodes_to(arguments, values), ret.arma_value()]
            <(A, B) as FromArguments>::decodes_to(arguments, values)
                && call_ensures(*self, (context, values.0, values.1), ret)
                && text == output_text(ret.arma_value())
    }

    fn call(
        &self,
        context: Context,
        output: &mut [libc::c_char],
        size: libc::size_t,
        args: Option<&[String]>,
        count: Option<libc::c_int>,
    ) -> (status: libc::c_int) {
        let (a, b) = match take::<(A, B)>(args, count) {
            Ok(values) => values,
            Err(status) => {
                return status;
            },
        };
        let ret = (self)(context, a, b);
        assert(self.renders(context, arguments(args), output_text(ret.arma_value()))) by {
            assert(<(A, B) as FromArguments>::decodes_to(arguments(args), (a, b)));
        }
        respond(&ret, output, size)
    }
}

/// What [`CommandFactory`] says of a handler of this shape with two decoded parameters.
pub proof fn lemma_context_returning_2<Func, A, B, R>(
    handler: Func,
    context: Context,
    arguments: Seq<Seq<char>>,
    text: Seq<char>,
) where
    Func: Fn(Context, A, B) -> R,
    A: FromArma,
    B: FromArma,
    R: IntoArma,
    ensures
        CommandFactory::<(Context, A, B), R>::arity(&handler) == 2,
        CommandFactory::<(Context, A, B), R>::ready(&handler) <==> (
            forall|context: Context, a: A, b: B| call_requires(handler, (context, a, b))
        ),
        CommandFactory::<(Context, A, B), R>::returns_value(&handler) == true,
        CommandFactory::<(Context, A, B), R>::failure_position(&handler, arguments)
            == <(A, B) as FromArguments>::failure_position(arguments),
        CommandFactory::<(Context, A, B), R>::renders(&handler, context, arguments, text) <==> (
            exists|values: (A, B), ret: R|
                #![trigger <(A, B) as FromArguments>::decodes_to(arguments, values), ret.arma_value()]
                <(A, B) as FromArguments>::decodes_to(arguments, values)
                    && call_ensures(handler, (context, values.0, values.1), ret)
                    && text == output_text(ret.arma_value())
        ),
{
}

impl<Func, A, B, C, R> CommandFactory<(Context, A, B, C), R> for Func where
    Func: Fn(Context, A, B, C) -> R,
    A: FromArma,
    B: FromArma,
    C: FromArma,
    R: IntoArma,
{
    open spec fn arity(&self) -> nat {
        3
    }

    open spec fn ready(&self) -> bool {
        forall|context: Context, a: A, b: B, c: C| call_requires(*self, (context, a, b, c))
    }

    open spec fn failure_position(&self, arguments: Seq<Seq<char>>) -> Option<nat> {
        <(A, B, C) as FromArguments>::failure_position(arguments)
    }

    open spec fn returns_value(&self) -> bool {
        true
    }

    open spec fn renders(
        &self,
        context: Context,
        arguments: Seq<Seq<char>>,
        text: Seq<char>,
    ) -> bool {
        exists|values: (A, B, C), ret: R|
            #![trigger <(A, B, C) as FromArguments>::decodes_to(arguments, values), ret.arma_value()]
            <(A, B, C) as FromArguments>::decodes_to(arguments, values)
                && call_ensures(*self, (context, values.0, values.1, values.2), ret)
                && text == output_text(ret.arma_value())
    }

    fn call(
        &self,
        context: Context,
        output: &mut [libc::c_char],
        size: libc::size_t,
        args: Option<&[String]>,
        count: Option<libc::c_int>,
    ) -> (status: libc::c_int) {
        let (a, b, c) = match take::<(A, B, C)>(args, count) {
            Ok(values) => values,
            Err(status) => {
                return status;
            },
        };
        let ret = (self)(context, a, b, c);
        assert(self.renders(context, arguments(args), output_text(ret.arma_value()))) by {
            assert(<(A, B, C) as FromArguments>::decodes_to(arguments(args), (a, b, c)));
        }
        respond(&ret, output, size)
    }
}

/// What [`CommandFactory`] says of a handler of this shape with three decoded parameters.
pub proof fn lemma_context_returning_3<Func, A, B, C, R>(
    handler: Func,
    context: Context,
    arguments: Seq<Seq<char>>,
    text: Seq<char>,
) where
    Func: Fn(Context, A, B, C) -> R,
    A: FromArma,
    B: FromArma,
    C: FromArma,
    R: IntoArma,
    ensures
        CommandFactory::<(Context, A, B, C), R>::arity(&handler) == 3,
        CommandFactory::<(Context, A, B, C), R>::ready(&handler) <==> (
            forall|context: Context, a: A, b: B, c: C| call_requires(handler, (context, a, b, c))
        ),
        CommandFactory::<(Context, A, B, C), R>::returns_value(&handler) == true,
        CommandFactory::<(Context, A, B, C), R>::failure_position(&handler, arguments)
            == <(A, B, C) as FromArguments>::failure_position(arguments),
        CommandFactory::<(Context, A, B, C), R>::renders(&handler, context, arguments, text) <==> (
            exists|values: (A, B, C), ret: R|
                #![trigger <(A, B, C) as FromArguments>::decodes_to(arguments, values), ret.arma_value()]
                <(A, B, C) as FromArguments>::decodes_to(arguments, values)
                    && call_ensures(handler, (context, values.0, values.1, values.2), ret)
                    && text == output_text(ret.arma_value())
        ),
{
}

impl<Func, A, B, C, D, R> CommandFactory<(Context, A, B, C, D), R> for Func where
    Func: Fn(Context, A, B, C, D) -> R,
    A: FromArma,
    B: FromArma,
    C: FromArma,
    D: FromArma,
    R: IntoArma,
{
    open spec fn arity(&self) -> nat {
        4
    }

    open spec fn ready(&self) -> bool {
        forall|context: Context, a: A, b: B, c: C, d: D| call_requires(*self, (context, a, b, c, d))
    }

    open spec fn failure_position(&self, arguments: Seq<Seq<char>>) -> Option<nat> {
        <(A, B, C, D) as FromArguments>::failure_position(arguments)
    }

    open spec fn returns_value(&self) -> bool {
        true
    }

    open spec fn renders(
        &self,
        context: Context,
        arguments: Seq<Seq<char>>,
        text: Seq<char>,
    ) -> bool {
        exists|values: (A, B, C, D), ret: R|
            #![trigger <(A, B, C, D) as FromArguments>::decodes_to(arguments, values), ret.arma_value()]
            <(A, B, C, D) as FromArguments>::decodes_to(arguments, values)
                && call_ensures(*self, (context, values.0, values.1, values.2, values.3), ret)
                && text == output_text(ret.arma_value())
    }

    fn call(
        &self,
        context: Context,
        output: &mut [libc::c_char],
        size: libc::size_t,
        args: Option<&[String]>,
        count: Option<libc::c_int>,
    ) -> (status: libc::c_int) {
        let (a, b, c, d) = match take::<(A, B, C, D)>(args, count) {
            Ok(values) => values,
            Err(status) => {
                return status;
            },
        };
        let ret = (self)(context, a, b, c, d);
        assert(self.renders(context, arguments(args), output_text(ret.arma_value()))) by {
            assert(<(A, B, C, D) as FromArguments>::decodes_to(arguments(args), (a, b, c, d)));
        }
        respond(&ret, output, size)
    }
}

/// What [`CommandFactory`] says of a handler of this shape with four decoded parameters.
pub proof fn lemma_context_returning_4<Func, A, B, C, D, R>(
    handler: Func,
    context: Context,
    arguments: Seq<Seq<char>>,
    text: Seq<char>,
) where
    Func: Fn(Context, A, B, C, D) -> R,
    A: FromArma,
    B: FromArma,
    C: FromArma,
    D: FromArma,
    R: IntoArma,
    ensures
        CommandFactory::<(Context, A, B, C, D), R>::arity(&handler) == 4,
        CommandFactory::<(Context, A, B, C, D), R>::ready(&handler) <==> (
            forall|
                context: Context,
                a: A,
                b: B,
                c: C,
                d: D,
            | call_requires(handler, (context, a, b, c, d))
        ),
        CommandFactory::<(Context, A, B, C, D), R>::returns_value(&handler) == true,
        CommandFactory::<(Context, A, B, C, D), R>::failure_position(&handler, arguments)
            == <(A, B, C, D) as FromArguments>::failure_position(arguments),
        CommandFactory::<(Context, A, B, C, D), R>::renders(&handler, context, arguments, text) <==> (
            exists|values: (A, B, C, D), ret: R|
                #![trigger <(A, B, C, D) as FromArguments>::decodes_to(arguments, values), ret.arma_value()]
                <(A, B, C, D) as FromArguments>::decodes_to(arguments, values)
                    && call_ensures(handler, (context, values.0, values.1, values.2, values.3), ret)
                    && text == output_text(ret.arma_value())
        ),
{
}

impl<Func, A, B, C, D, E, R> CommandFactory<(Context, A, B, C, D, E), R> for Func where
    Func: Fn(Context, A, B, C, D, E) -> R,
    A: FromArma,
    B: FromArma,
    C: FromArma,
    D: FromArma,
    E: FromArma,
    R: IntoArma,
{
    open spec fn arity(&self) -> nat {
        5
    }

    open spec fn ready(&self) -> bool {
        forall|
            context: Context,
            a: A,
            b: B,
            c: C,
            d: D,
            e: E,
        | call_requires(*self, (context, a, b, c, d, e))
    }

    open spec fn failure_position(&self, arguments: Seq<Seq<char>>) -> Option<nat> {
        <(A, B, C, D, E) as FromArguments>::failure_position(arguments)
    }

    open spec fn returns_value(&self) -> bool {
        true
    }

    open spec fn renders(
        &self,
        context: Context,
        arguments: Seq<Seq<char>>,
        text: Seq<char>,
    ) -> bool {
        exists|values: (A, B, C, D, E), ret: R|
            #![trigger <(A, B, C, D, E) as FromArguments>::decodes_to(arguments, values), ret.arma_value()]
            <(A, B, C, D, E) as FromArguments>::decodes_to(arguments, values)
                && call_ensures(*self, (context, values.0, values.1, values.2, values.3, values.4), ret)
                && text == output_text(ret.arma_value())
    }

    fn call(
        &self,
        context: Context,
        output: &mut [libc::c_char],
        size: libc::size_t,
        args: Option<&[String]>,
        count: Option<libc::c_int>,
    ) -> (status: libc::c_int) {
        let (a, b, c, d, e) = match take::<(A, B, C, D, E)>(args, count) {
            Ok(values) => values,
            Err(status) => {
                return status;
            },
        };
        let ret = (self)(context, a, b, c, d, e);
        assert(self.renders(context, arguments(args), output_text(ret.arma_value()))) by {
            assert(<(A, B, C, D, E) as FromArguments>::decodes_to(arguments(args), (a, b, c, d, e)));
        }
        respond(&ret, output, size)
    }
}

/// What [`CommandFactory`] says of a handler of this shape with five decoded parameters.
pub proof fn lemma_context_returning_5<Func, A, B, C, D, E, R>(
    handler: Func,
    context: Context,
    arguments: Seq<Seq<char>>,
    text: Seq<char>,
) where
    Func: Fn(Context, A, B, C, D, E) -> R,
    A: FromArma,
    B: FromArma,
    C: FromArma,
    D: FromArma,
    E: FromArma,
    R: IntoArma,
    ensures
        CommandFactory::<(Context, A, B, C, D, E), R>::arity(&handler) == 5,
        CommandFactory::<(Context, A, B, C, D, E), R>::ready(&handler) <==> (
            forall|
                context: Context,
                a: A,
                b: B,
                c: C,
                d: D,
                e: E,
            | call_requires(handler, (context, a, b, c, d, e))
        ),
        CommandFactory::<(Context, A, B, C, D, E), R>::returns_value(&handler) == true,
        CommandFactory::<(Context, A, B, C, D, E), R>::failure_position(&handler, arguments)
            == <(A, B, C, D, E) as FromArguments>::failure_position(arguments),
        CommandFactory::<(Context, A, B, C, D, E), R>::renders(&handler, context, arguments, text) <==> (
            exists|values: (A, B, C, D, E), ret: R|
                #![trigger <(A, B, C, D, E) as FromArguments>::decodes_to(arguments, values), ret.arma_value()]
                <(A, B, C, D, E) as FromArguments>::decodes_to(arguments, values)
                    && call_ensures(handler, (context, values.0, values.1, values.2, values.3, values.4), ret)
                    && text == output_text(ret.arma_value())
        ),
{
}

impl<Func, A, B, C, D, E, F, R> CommandFactory<(Context, A, B, C, D, E, F), R> for Func where
    Func: Fn(Context, A, B, C, D, E, F) -> R,
    A: FromArma,
    B: FromArma,
    C: FromArma,
    D: FromArma,
    E: FromArma,
    F: FromArma,
    R: IntoArma,
{
    open spec fn arity(&self) -> nat {
        6
    }

    open spec fn ready(&self) -> bool {
        forall|
            context: Context,
            a: A,
            b: B,
            c: C,
            d: D,
            e: E,
            f: F,
        | call_requires(*self, (context, a, b, c, d, e, f))
    }

    open spec fn failure_position(&self, arguments: Seq<Seq<char>>) -> Option<nat> {
        <(A, B, C, D, E, F) as FromArguments>::failure_position(arguments)
    }

    open spec fn returns_value(&self) -> bool {
        true
    }

    open spec fn renders(
        &self,
        context: Context,
        arguments: Seq<Seq<char>>,
        text: Seq<char>,
    ) -> bool {
        exists|values: (A, B, C, D, E, F), ret: R|
            #![trigger <(A, B, C, D, E, F) as FromArguments>::decodes_to(arguments, values), ret.arma_value()]
            <(A, B, C, D, E, F) as FromArguments>::decodes_to(arguments, values)
                && call_ensures(*self, (context, values.0, values.1, values.2, values.3, values.4, values.5), ret)
                && text == output_text(ret.arma_value())
    }

    fn call(
        &self,
        context: Context,
        output: &mut [libc::c_char],
        size: libc::size_t,
        args: Option<&[String]>,
        count: Option<libc::c_int>,
    ) -> (status: libc::c_int) {
        let (a, b, c, d, e, f) = match take::<(A, B, C, D, E, F)>(args, count) {
            Ok(values) => values,
            Err(status) => {
                return status;
            },
        };
        let ret = (self)(context, a, b, c, d, e, f);
        assert(self.renders(context, arguments(args), output_text(ret.arma_value()))) by {
            assert(<(A, B, C, D, E, F) as FromArguments>::decodes_to(arguments(args), (a, b, c, d, e, f)));
        }
        respond(&ret, output, size)
    }
}

/// What [`CommandFactory`] says of a handler of this shape with six decoded parameters.
pub proof fn lemma_context_returning_6<Func, A, B, C, D, E, F, R>(
    handler: Func,
    context: Context,
    arguments: Seq<Seq<char>>,
    text: Seq<char>,
) where
    Func: Fn(Context, A, B, C, D, E, F) -> R,
    A: FromArma,
    B: FromArma,
    C: FromArma,
    D: FromArma,
    E: FromArma,
    F: FromArma,
    R: IntoArma,
    ensures
        CommandFactory::<(Context, A, B, C, D, E, F), R>::arity(&handler) == 6,
        CommandFactory::<(Context, A, B, C, D, E, F), R>::ready(&handler) <==> (
            forall|
                context: Context,
                a: A,
                b: B,
                c: C,
                d: D,
                e: E,
                f: F,
            | call_requires(handler, (context, a, b, c, d, e, f))
        ),
        CommandFactory::<(Context, A, B, C, D, E, F), R>::returns_value(&handler) == true,
        CommandFactory::<(Context, A, B, C, D, E, F), R>::failure_position(&handler, arguments)
            == <(A, B, C, D, E, F) as FromArguments>::failure_position(arguments),
        CommandFactory::<(Context, A, B, C, D, E, F), R>::renders(&handler, context, arguments, text) <==> (
            exists|values: (A, B, C, D, E, F), ret: R|
                #![trigger <(A, B, C, D, E, F) as FromArguments>::decodes_to(arguments, values), ret.arma_value()]
                <(A, B, C, D, E, F) as FromArguments>::decodes_to(arguments, values)
                    && call_ensures(handler, (context, values.0, values.1, values.2, values.3, values.4, values.5), ret)
                    && text == output_text(ret.arma_value())
        ),
{
}

impl<Func, A, B, C, D, E, F, G, R> CommandFactory<(Context, A, B, C, D, E, F, G), R> for Func where
    Func: Fn(Context, A, B, C, D, E, F, G) -> R,
    A: FromArma,
    B: FromArma,
    C: FromArma,
    D: FromArma,
    E: FromArma,
    F: FromArma,
    G: FromArma,
    R: IntoArma,
{
    open spec fn arity(&self) -> nat {
        7
    }

    open spec fn ready(&self) -> bool {
        forall|
            context: Context,
            a: A,
            b: B,
            c: C,
            d: D,
            e: E,
            f: F,
            g: G,
        | call_requires(*self, (context, a, b, c, d, e, f, g))
    }

    open spec fn failure_position(&self, arguments: Seq<Seq<char>>) -> Option<nat> {
        <(A, B, C, D, E, F, G) as FromArguments>::failure_position(arguments)
    }

    open spec fn returns_value(&self) -> bool {
        true
    }

    open spec fn renders(
        &self,
        context: Context,
        arguments: Seq<Seq<char>>,
        text: Seq<char>,
    ) -> bool {
        exists|values: (A, B, C, D, E, F, G), ret: R|
            #![trigger <(A, B, C, D, E, F, G) as FromArguments>::decodes_to(arguments, values), ret.arma_value()]
            <(A, B, C, D, E, F, G) as FromArguments>::decodes_to(arguments, values)
                && call_ensures(*self, (context, values.0, values.1, values.2, values.3, values.4, values.5, values.6), ret)
                && text == output_text(ret.arma_value())
    }

    fn call(
        &self,
        context: Context,
        output: &mut [libc::c_char],
        size: libc::size_t,
        args: Option<&[String]>,
        count: Option<libc::c_int>,
    ) -> (status: libc::c_int) {
        let (a, b, c, d, e, f, g) = match take::<(A, B, C, D, E, F, G)>(args, count) {
            Ok(values) => values,
            Err(status) => {
                return status;
            },
        };
        let ret = (self)(context, a, b, c, d, e, f, g);
        assert(self.renders(context, arguments(args), output_text(ret.arma_value()))) by {
            assert(<(A, B, C, D, E, F, G) as FromArguments>::decodes_to(arguments(args), (a, b, c, d, e, f, g)));
        }
        respond(&ret, output, size)
    }
}

/// What [`CommandFactory`] says of a handler of this shape with seven decoded parameters.
pub proof fn lemma_context_returning_7<Func, A, B, C, D, E, F, G, R>(
    handler: Func,
    context: Context,
    arguments: Seq<Seq<char>>,
    text: Seq<char>,
) where
    Func: Fn(Context, A, B, C, D, E, F, G) -> R,
    A: FromArma,
    B: FromArma,
    C: FromArma,
    D: FromArma,
    E: FromArma,
    F: FromArma,
    G: FromArma,
    R: IntoArma,
    ensures
        CommandFactory::<(Context, A, B, C, D, E, F, G), R>::arity(&handler) == 7,
        CommandFactory::<(Context, A, B, C, D, E, F, G), R>::ready(&handler) <==> (
            forall|
                context: Context,
                a: A,
                b: B,
                c: C,
                d: D,
                e: E,
                f: F,
                g: G,
            | call_requires(handler, (context, a, b, c, d, e, f, g))
        ),
        CommandFactory::<(Context, A, B, C, D, E, F, G), R>::returns_value(&handler) == true,
        CommandFactory::<(Context, A, B, C, D, E, F, G), R>::failure_position(&handler, arguments)
            == <(A, B, C, D, E, F, G) as FromArguments>::failure_position(arguments),
        CommandFactory::<(Context, A, B, C, D, E, F, G), R>::renders(&handler, context, arguments, text) <==> (
            exists|values: (A, B, C, D, E, F, G), ret: R|
                #![trigger <(A, B, C, D, E, F, G) as FromArguments>::decodes_to(arguments, values), ret.arma_value()]
                <(A, B, C, D, E, F, G) as FromArguments>::decodes_to(arguments, values)
                    && call_ensures(handler, (context, values.0, values.1, values.2, values.3, values.4, values.5, values.6), ret)
                    && text == output_text(ret.arma_value())
        ),
{
}

impl<
    Func,
    A,
    B,
    C,
    D,
    E,
    F,
    G,
    H,
    R,
> CommandFactory<(Context, A, B, C, D, E, F, G, H), R> for Func where
    Func: Fn(Context, A, B, C, D, E, F, G, H) -> R,
    A: FromArma,
    B: FromArma,
    C: FromArma,
    D: FromArma,
    E: FromArma,
    F: FromArma,
    G: FromArma,
    H: FromArma,
    R: IntoArma,
{
    open spec fn arity(&self) -> nat {
        8
    }

    open spec fn ready(&self) -> bool {
        forall|
            context: Context,
            a: A,
            b: B,
            c: C,
            d: D,
            e: E,
            f: F,
            g: G,
            h: H,
        | call_requires(*self, (context, a, b, c, d, e, f, g, h))
    }

    open spec fn failure_position(&self, arguments: Seq<Seq<char>>) -> Option<nat> {
        <(A, B, C, D, E, F, G, H) as FromArguments>::failure_position(arguments)
    }

    open spec fn returns_value(&self) -> bool {
        true
    }

    open spec fn renders(
        &self,
        context: Context,
        arguments: Seq<Seq<char>>,
        text: Seq<char>,
    ) -> bool {
        exists|values: (A, B, C, D, E, F, G, H), ret: R|
            #![trigger <(A, B, C, D, E, F, G, H) as FromArguments>::decodes_to(arguments, values), ret.arma_value()]
            <(A, B, C, D, E, F, G, H) as FromArguments>::decodes_to(arguments, values)
                && call_ensures(*self, (context, values.0, values.1, values.2, values.3, values.4, values.5, values.6, values.7), ret)
                && text == output_text(ret.arma_value())
    }

    fn call(
        &self,
        context: Context,
        output: &mut [libc::c_char],
        size: libc::size_t,
        args: Option<&[String]>,
        count: Option<libc::c_int>,
    ) -> (status: libc::c_int) {
        let (a, b, c, d, e, f, g, h) = match take::<(A, B, C, D, E, F, G, H)>(args, count) {
            Ok(values) => values,
            Err(status) => {
                return status;
            },
        };
        let ret = (self)(context, a, b, c, d, e, f, g, h);
        assert(self.renders(context, arguments(args), output_text(ret.arma_value()))) by {
            assert(<(A, B, C, D, E, F, G, H) as FromArguments>::decodes_to(arguments(args), (a, b, c, d, e, f, g, h)));
        }
        respond(&ret, output, size)
    }
}

/// What [`CommandFactory`] says of a handler of this shape with eight decoded parameters.
pub proof fn lemma_context_returning_8<Func, A, B, C, D, E, F, G, H, R>(
    handler: Func,
    context: Context,
    arguments: Seq<Seq<char>>,
    text: Seq<char>,
) where
    Func: Fn(Context, A, B, C, D, E, F, G, H) -> R,
    A: FromArma,
    B: FromArma,
    C: FromArma,
    D: FromArma,
    E: FromArma,
    F: FromArma,
    G: FromArma,
    H: FromArma,
    R: IntoArma,
    ensures
        CommandFactory::<(Context, A, B, C, D, E, F, G, H), R>::arity(&handler) == 8,
        CommandFactory::<(Context, A, B, C, D, E, F, G, H), R>::ready(&handler) <==> (
            forall|
                context: Context,
                a: A,
                b: B,
                c: C,
                d: D,
                e: E,
                f: F,
                g: G,
                h: H,
            | call_requires(handler, (context, a, b, c, d, e, f, g, h))
        ),
        CommandFactory::<(Context, A, B, C, D, E, F, G, H), R>::returns_value(&handler) == true,
        CommandFactory::<(Context, A, B, C, D, E, F, G, H), R>::failure_position(&handler, arguments)
            == <(A, B, C, D, E, F, G, H) as FromArguments>::failure_position(arguments),
        CommandFactory::<(Context, A, B, C, D, E, F, G, H), R>::renders(&handler, context, arguments, text) <==> (
            exists|values: (A, B, C, D, E, F, G, H), ret: R|
                #![trigger <(A, B, C, D, E, F, G, H) as FromArguments>::decodes_to(arguments, values), ret.arma_value()]
                <(A, B, C, D, E, F, G, H) as FromArguments>::decodes_to(arguments, values)
                    && call_ensures(handler, (context, values.0, values.1, values.2, values.3, values.4, values.5, values.6, values.7), ret)
                    && text == output_text(ret.arma_value())
        ),
{
}

impl<
    Func,
    A,
    B,
    C,
    D,
    E,
    F,
    G,
    H,
    I,
    R,
> CommandFactory<(Context, A, B, C, D, E, F, G, H, I), R> for Func where
    Func: Fn(Context, A, B, C, D, E, F, G, H, I) -> R,
    A: FromArma,
    B: FromArma,
    C: FromArma,
    D: FromArma,
    E: FromArma,
    F: FromArma,
    G: FromArma,
    H: FromArma,
    I: FromArma,
    R: IntoArma,
{
    open spec fn arity(&self) -> nat {
        9
    }

    open spec fn ready(&self) -> bool {
        forall|
            context: Context,
            a: A,
            b: B,
            c: C,
            d: D,
            e: E,
            f: F,
            g: G,
            h: H,
            i: I,
        | call_requires(*self, (context, a, b, c, d, e, f, g, h, i))
    }

    open spec fn failure_position(&self, arguments: Seq<Seq<char>>) -> Option<nat> {
        <(A, B, C, D, E, F, G, H, I) as FromArguments>::failure_position(arguments)
    }

    open spec fn returns_value(&self) -> bool {
        true
    }

    open spec fn renders(
        &self,
        context: Context,
        arguments: Seq<Seq<char>>,
        text: Seq<char>,
    ) -> bool {
        exists|values: (A, B, C, D, E, F, G, H, I), ret: R|
            #![trigger <(A, B, C, D, E, F, G, H, I) as FromArguments>::decodes_to(arguments, values), ret.arma_value()]
            <(A, B, C, D, E, F, G, H, I) as FromArguments>::decodes_to(arguments, values)
                && call_ensures(*self, (context, values.0, values.1, values.2, values.3, values.4, values.5, values.6, values.7, values.8), ret)
                && text == output_text(ret.arma_value())
    }

    fn call(
        &self,
        context: Context,
        output: &mut [libc::c_char],
        size: libc::size_t,
        args: Option<&[String]>,
        count: Option<libc::c_int>,
    ) -> (status: libc::c_int) {
        let (a, b, c, d, e, f, g, h, i) = match take::<(A, B, C, D, E, F, G, H, I)>(args, count) {
            Ok(values) => values,
            Err(status) => {
                return status;
            },
        };
        let ret = (self)(context, a, b, c, d, e, f, g, h, i);
        assert(self.renders(context, arguments(args), output_text(ret.arma_value()))) by {
            assert(<(A, B, C, D, E, F, G, H, I) as FromArguments>::decodes_to(arguments(args), (a, b, c, d, e, f, g, h, i)));
        }
        respond(&ret, output, size)
    }
}

/// What [`CommandFactory`] says of a handler of this shape with nine decoded parameters.
pub proof fn lemma_context_returning_9<Func, A, B, C, D, E, F, G, H, I, R>(
    handler: Func,
    context: Context,
    arguments: Seq<Seq<char>>,
    text: Seq<char>,
) where
    Func: Fn(Context, A, B, C, D, E, F, G, H, I) -> R,
    A: FromArma,
    B: FromArma,
    C: FromArma,
    D: FromArma,
    E: FromArma,
    F: FromArma,
    G: FromArma,
    H: FromArma,
    I: FromArma,
    R: IntoArma,
    ensures
        CommandFactory::<(Context, A, B, C, D, E, F, G, H, I), R>::arity(&handler) == 9,
        CommandFactory::<(Context, A, B, C, D, E, F, G, H, I), R>::ready(&handler) <==> (
            forall|
                context: Context,
                a: A,
                b: B,
                c: C,
                d: D,
                e: E,
                f: F,
                g: G,
                h: H,
                i: I,
            | call_requires(handler, (context, a, b, c, d, e, f, g, h, i))
        ),
        CommandFactory::<(Context, A, B, C, D, E, F, G, H, I), R>::returns_value(&handler) == true,
        CommandFactory::<(Context, A, B, C, D, E, F, G, H, I), R>::failure_position(&handler, arguments)
            == <(A, B, C, D, E, F, G, H, I) as FromArguments>::failure_position(arguments),
        CommandFactory::<(Context, A, B, C, D, E, F, G, H, I), R>::renders(&handler, context, arguments, text) <==> (
            exists|values: (A, B, C, D, E, F, G, H, I), ret: R|
                #![trigger <(A, B, C, D, E, F, G, H, I) as FromArguments>::decodes_to(arguments, values), ret.arma_value()]
                <(A, B, C, D, E, F, G, H, I) as FromArguments>::decodes_to(arguments, values)
                    && call_ensures(handler, (context, values.0, values.1, values.2, values.3, values.4, values.5, values.6, values.7, values.8), ret)
                    && text == output_text(ret.arma_value())
        ),
{
}

impl<
    Func,
    A,
    B,
    C,
    D,
    E,
    F,
    G,
    H,
    I,
    J,
    R,
> CommandFactory<(Context, A, B, C, D, E, F, G, H, I, J), R> for Func where
    Func: Fn(Context, A, B, C, D, E, F, G, H, I, J) -> R,
    A: FromArma,
    B: FromArma,
    C: FromArma,
    D: FromArma,
    E: FromArma,
    F: FromArma,
    G: FromArma,
    H: FromArma,
    I: FromArma,
    J: FromArma,
    R: IntoArma,
{
    open spec fn arity(&self) -> nat {
        10
    }

    open spec fn ready(&self) -> bool {
        forall|
            context: Context,
            a: A,
            b: B,
            c: C,
            d: D,
            e: E,
            f: F,
            g: G,
            h: H,
            i: I,
            j: J,
        | call_requires(*self, (context, a, b, c, d, e, f, g, h, i, j))
    }

    open spec fn failure_position(&self, arguments: Seq<Seq<char>>) -> Option<nat> {
        <(A, B, C, D, E, F, G, H, I, J) as FromArguments>::failure_position(arguments)
    }

    open spec fn returns_value(&self) -> bool {
        true
    }

    open spec fn renders(
        &self,
        context: Context,
        arguments: Seq<Seq<char>>,
        text: Seq<char>,
    ) -> bool {
        exists|values: (A, B, C, D, E, F, G, H, I, J), ret: R|
            #![trigger <(A, B, C, D, E, F, G, H, I, J) as FromArguments>::decodes_to(arguments, values), ret.arma_value()]
            <(A, B, C, D, E, F, G, H, I, J) as FromArguments>::decodes_to(arguments, values)
                && call_ensures(*self, (context, values.0, values.1, values.2, values.3, values.4, values.5, values.6, values.7, values.8, values.9), ret)
                && text == output_text(ret.arma_value())
    }

    fn call(
        &self,
        context: Context,
        output: &mut [libc::c_char],
        size: libc::size_t,
        args: Option<&[String]>,
        count: Option<libc::c_int>,
    ) -> (status: libc::c_int) {
        let (a, b, c, d, e, f, g, h, i, j) = match take::<(A, B, C, D, E, F, G, H, I, J)>(args, count) {
            Ok(values) => values,
            Err(status) => {
                return status;
            },
        };
        let ret = (self)(context, a, b, c, d, e, f, g, h, i, j);
        assert(self.renders(context, arguments(args), output_text(ret.arma_value()))) by {
            assert(<(A, B, C, D, E, F, G, H, I, J) as FromArguments>::decodes_to(arguments(args), (a, b, c, d, e, f, g, h, i, j)));
        }
        respond(&ret, output, size)
    }
}

/// What [`CommandFactory`] says of a handler of this shape with ten decoded parameters.
pub proof fn lemma_context_returning_10<Func, A, B, C, D, E, F, G, H, I, J, R>(
    handler: Func,
    context: Context,
    arguments: Seq<Seq<char>>,
    text: Seq<char>,
) where
    Func: Fn(Context, A, B, C, D, E, F, G, H, I, J) -> R,
    A: FromArma,
    B: FromArma,
    C: FromArma,
    D: FromArma,
    E: FromArma,
    F: FromArma,
    G: FromArma,
    H: FromArma,
    I: FromArma,
    J: FromArma,
    R: IntoArma,
    ensures
        CommandFactory::<(Context, A, B, C, D, E, F, G, H, I, J), R>::arity(&handler) == 10,
        CommandFactory::<(Context, A, B, C, D, E, F, G, H, I, J), R>::ready(&handler) <==> (
            forall|
                context: Context,
                a: A,
                b: B,
                c: C,
                d: D,
                e: E,
                f: F,
                g: G,
                h: H,
                i: I,
                j: J,
            | call_requires(handler, (context, a, b, c, d, e, f, g, h, i, j))
        ),
        CommandFactory::<(Context, A, B, C, D, E, F, G, H, I, J), R>::returns_value(&handler) == true,
        CommandFactory::<(Context, A, B, C, D, E, F, G, H, I, J), R>::failure_position(&handler, arguments)
            == <(A, B, C, D, E, F, G, H, I, J) as FromArguments>::failure_position(arguments),
        CommandFactory::<(Context, A, B, C, D, E, F, G, H, I, J), R>::renders(&handler, context, arguments, text) <==> (
            exists|values: (A, B, C, D, E, F, G, H, I, J), ret: R|
                #![trigger <(A, B, C, D, E, F, G, H, I, J) as FromArguments>::decodes_to(arguments, values), ret.arma_value()]
                <(A, B, C, D, E, F, G, H, I, J) as FromArguments>::decodes_to(arguments, values)
                    && call_ensures(handler, (context, values.0, values.1, values.2, values.3, values.4, values.5, values.6, values.7, values.8, values.9), ret)
                    && text == output_text(ret.arma_value())
        ),
{
}

impl<
    Func,
    A,
    B,
    C,
    D,
    E,
    F,
    G,
    H,
    I,
    J,
    K,
    R,
> CommandFactory<(Context, A, B, C, D, E, F, G, H, I, J, K), R> for Func where
    Func: Fn(Context, A, B, C, D, E, F, G, H, I, J, K) -> R,
    A: FromArma,
    B: FromArma,
    C: FromArma,
    D: FromArma,
    E: FromArma,
    F: FromArma,
    G: FromArma,
    H: FromArma,
    I: FromArma,
    J: FromArma,
    K: FromArma,
    R: IntoArma,
{
    open spec fn arity(&self) -> nat {
        11
    }

    open spec fn ready(&self) -> bool {
        forall|
            context: Context,
            a: A,
            b: B,
            c: C,
            d: D,
            e: E,
            f: F,
            g: G,
            h: H,
            i: I,
            j: J,
            k: K,
        | call_requires(*self, (context, a, b, c, d, e, f, g, h, i, j, k))
    }

    open spec fn failure_position(&self, arguments: Seq<Seq<char>>) -> Option<nat> {
        <(A, B, C, D, E, F, G, H, I, J, K) as FromArguments>::failure_position(arguments)
    }

    open spec fn returns_value(&self) -> bool {
        true
    }

    open spec fn renders(
        &self,
        context: Context,
        arguments: Seq<Seq<char>>,
        text: Seq<char>,
    ) -> bool {
        exists|values: (A, B, C, D, E, F, G, H, I, J, K), ret: R|
            #![trigger <(A, B, C, D, E, F, G, H, I, J, K) as FromArguments>::decodes_to(arguments, values), ret.arma_value()]
            <(A, B, C, D, E, F, G, H, I, J, K) as FromArguments>::decodes_to(arguments, values)
                && call_ensures(*self, (context, values.0, values.1, values.2, values.3, values.4, values.5, values.6, values.7, values.8, values.9, values.10), ret)
                && text == output_text(ret.arma_value())
    }

    fn call(
        &self,
        context: Context,
        output: &mut [libc::c_char],
        size: libc::size_t,
        args: Option<&[String]>,
        count: Option<libc::c_int>,
    ) -> (status: libc::c_int) {
        let (a, b, c, d, e, f, g, h, i, j, k) = match take::<(A, B, C, D, E, F, G, H, I, J, K)>(args, count) {
            Ok(values) => values,
            Err(status) => {
                return status;
            },
        };
        let ret = (self)(context, a, b, c, d, e, f, g, h, i, j, k);
        assert(self.renders(context, arguments(args), output_text(ret.arma_value()))) by {
            assert(<(A, B, C, D, E, F, G, H, I, J, K) as FromArguments>::decodes_to(arguments(args), (a, b, c, d, e, f, g, h, i, j, k)));
        }
        respond(&ret, output, size)
    }
}

/// What [`CommandFactory`] says of a handler of this shape with eleven decoded parameters.
pub proof fn lemma_context_returning_11<Func, A, B, C, D, E, F, G, H, I, J, K, R>(
    handler: Func,
    context: Context,
    arguments: Seq<Seq<char>>,
    text: Seq<char>,
) where
    Func: Fn(Context, A, B, C, D, E, F, G, H, I, J, K) -> R,
    A: FromArma,
    B: FromArma,
    C: FromArma,
    D: FromArma,
    E: FromArma,
    F: FromArma,
    G: FromArma,
    H: FromArma,
    I: FromArma,
    J: FromArma,
    K: FromArma,
    R: IntoArma,
    ensures
        CommandFactory::<(Context, A, B, C, D, E, F, G, H, I, J, K), R>::arity(&handler) == 11,
        CommandFactory::<(Context, A, B, C, D, E, F, G, H, I, J, K), R>::ready(&handler) <==> (
            forall|
                context: Context,
                a: A,
                b: B,
                c: C,
                d: D,
                e: E,
                f: F,
                g: G,
                h: H,
                i: I,
                j: J,
                k: K,
            | call_requires(handler, (context, a, b, c, d, e, f, g, h, i, j, k))
        ),
        CommandFactory::<(Context, A, B, C, D, E, F, G, H, I, J, K), R>::returns_value(&handler) == true,
        CommandFactory::<(Context, A, B, C, D, E, F, G, H, I, J, K), R>::failure_position(&handler, arguments)
            == <(A, B, C, D, E, F, G, H, I, J, K) as FromArguments>::failure_position(arguments),
        CommandFactory::<(Context, A, B, C, D, E, F, G, H, I, J, K), R>::renders(&handler, context, arguments, text) <==> (
            exists|values: (A, B, C, D, E, F, G, H, I, J, K), ret: R|
                #![trigger <(A, B, C, D, E, F, G, H, I, J, K) as FromArguments>::decodes_to(arguments, values), ret.arma_value()]
                <(A, B, C, D, E, F, G, H, I, J, K) as FromArguments>::decodes_to(arguments, values)
                    && call_ensures(handler, (context, values.0, values.1, values.2, values.3, values.4, values.5, values.6, values.7, values.8, values.9, values.10), ret)
                    && text == output_text(ret.arma_value())
        ),
{
}

impl<
    Func,
    A,
    B,
    C,
    D,
    E,
    F,
    G,
    H,
    I,
    J,
    K,
    L,
    R,
> CommandFactory<(Context, A, B, C, D, E, F, G, H, I, J, K, L), R> for Func where
    Func: Fn(Context, A, B, C, D, E, F, G, H, I, J, K, L) -> R,
    A: FromArma,
    B: FromArma,
    C: FromArma,
    D: FromArma,
    E: FromArma,
    F: FromArma,
    G: FromArma,
    H: FromArma,
    I: FromArma,
    J: FromArma,
    K: FromArma,
    L: FromArma,
    R: IntoArma,
{
    open spec fn arity(&self) -> nat {
        12
    }

    open spec fn ready(&self) -> bool {
        forall|
            context: Context,
            a: A,
            b: B,
            c: C,
            d: D,
            e: E,
            f: F,
            g: G,
            h: H,
            i: I,
            j: J,
            k: K,
            l: L,
        | call_requires(*self, (context, a, b, c, d, e, f, g, h, i, j, k, l))
    }

    open spec fn failure_position(&self, arguments: Seq<Seq<char>>) -> Option<nat> {
        <(A, B, C, D, E, F, G, H, I, J, K, L) as FromArguments>::failure_position(arguments)
    }

    open spec fn returns_value(&self) -> bool {
        true
    }

    open spec fn renders(
        &self,
        context: Context,
        arguments: Seq<Seq<char>>,
        text: Seq<char>,
    ) -> bool {
        exists|values: (A, B, C, D, E, F, G, H, I, J, K, L), ret: R|
            #![trigger <(A, B, C, D, E, F, G, H, I, J, K, L) as FromArguments>::decodes_to(arguments, values), ret.arma_value()]
            <(A, B, C, D, E, F, G, H, I, J, K, L) as FromArguments>::decodes_to(arguments, values)
                && call_ensures(*self, (context, values.0, values.1, values.2, values.3, values.4, values.5, values.6, values.7, values.8, values.9, values.10, values.11), ret)
                && text == output_text(ret.arma_value())
    }

    fn call(
        &self,
        context: Context,
        output: &mut [libc::c_char],
        size: libc::size_t,
        args: Option<&[String]>,
        count: Option<libc::c_int>,
    ) -> (status: libc::c_int) {
        let (a, b, c, d, e, f, g, h, i, j, k, l) = match take::<(A, B, C, D, E, F, G, H, I, J, K, L)>(args, count) {
            Ok(values) => values,
            Err(status) => {
                return status;
            },
        };
        let ret = (self)(context, a, b, c, d, e, f, g, h, i, j, k, l);
        assert(self.renders(context, arguments(args), output_text(ret.arma_value()))) by {
            assert(<(A, B, C, D, E, F, G, H, I, J, K, L) as FromArguments>::decodes_to(arguments(args), (a, b, c, d, e, f, g, h, i, j, k, l)));
        }
        respond(&ret, output, size)
    }
}

/// What [`CommandFactory`] says of a handler of this shape with twelve decoded parameters.
pub proof fn lemma_context_returning_12<Func, A, B, C, D, E, F, G, H, I, J, K, L, R>(
    handler: Func,
    context: Context,
    arguments: Seq<Seq<char>>,
    text: Seq<char>,
) where
    Func: Fn(Context, A, B, C, D, E, F, G, H, I, J, K, L) -> R,
    A: FromArma,
    B: FromArma,
    C: FromArma,
    D: FromArma,
    E: FromArma,
    F: FromArma,
    G: FromArma,
    H: FromArma,
    I: FromArma,
    J: FromArma,
    K: FromArma,
    L: FromArma,
    R: IntoArma,
    ensures
        CommandFactory::<(Context, A, B, C, D, E, F, G, H, I, J, K, L), R>::arity(&handler) == 12,
        CommandFactory::<(Context, A, B, C, D, E, F, G, H, I, J, K, L), R>::ready(&handler) <==> (
            forall|
                context: Context,
                a: A,
                b: B,
                c: C,
                d: D,
                e: E,
                f: F,
                g: G,
                h: H,
                i: I,
                j: J,
                k: K,
                l: L,
            | call_requires(handler, (context, a, b, c, d, e, f, g, h, i, j, k, l))
        ),
        CommandFactory::<(Context, A, B, C, D, E, F, G, H, I, J, K, L), R>::returns_value(&handler) == true,
        CommandFactory::<(Context, A, B, C, D, E, F, G, H, I, J, K, L), R>::failure_position(&handler, arguments)
            == <(A, B, C, D, E, F, G, H, I, J, K, L) as FromArguments>::failure_position(arguments),
        CommandFactory::<(Context, A, B, C, D, E, F, G, H, I, J, K, L), R>::renders(&handler, context, arguments, text) <==> (
            exists|values: (A, B, C, D, E, F, G, H, I, J, K, L), ret: R|
                #![trigger <(A, B, C, D, E, F, G, H, I, J, K, L) as FromArguments>::decodes_to(arguments, values), ret.arma_value()]
                <(A, B, C, D, E, F, G, H, I, J, K, L) as FromArguments>::decodes_to(arguments, values)
                    && call_ensures(handler, (context, values.0, values.1, values.2, values.3, values.4, values.5, values.6, values.7, values.8, values.9, values.10, values.11), ret)
                    && text == output_text(ret.arma_value())
        ),
{
}

} // verus!
