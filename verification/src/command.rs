//! Invoking a typed handler on the untyped arguments of the caller.
//!
//! A handler is a callable of one of four shapes: with or without a leading
//! [`Context`] parameter, with or without a result. Its other parameters, up
//! to [`MAX_ARITY`] of them, are decoded from the arguments that the caller
//! supplied. [`CommandFactory::call`] checks the number of arguments, decodes
//! them from left to right, calls the handler and writes its result into the
//! output buffer.
//!
//! Whatever the caller supplies, an invocation ends with a status:
//! - a count that differs from the number of parameters: the mismatch status
//!   of the count, and nothing is decoded;
//! - an argument that cannot be decoded, or is not there although the count
//!   says so: the conversion status of the position of the first such;
//! - a result that does not fit the buffer: the overflow status.
//!
//! Otherwise the handler is called once, with the decoded values in the order
//! of its parameters, and the status is success.

use vstd::prelude::*;
use std::marker::PhantomData;
use crate::buffer::{fits, write_cstr, written};
use crate::context::Context;
use crate::convert::{decode, decodes, decodes_as, FromArma, IntoArma};
use crate::status::{
    conversion_status, conversion_status_spec, mismatch_report, mismatch_status,
    MAX_REPORTABLE_POSITION, STATUS_OUTPUT_OVERFLOW, STATUS_SUCCESS,
};
use crate::value::output_text;

verus! {

/// The largest number of decoded parameters that a handler can have.
pub const MAX_ARITY: usize = 12;

/// The number of arguments that the caller says it supplied; a missing count
/// stands for none.
pub open spec fn supplied(count: Option<libc::c_int>) -> int {
    match count {
        Some(n) => n as int,
        None => 0,
    }
}

/// The number of arguments that can ever be decoded where `count` is
/// supplied: `count` itself if some handler can have as many parameters, none
/// otherwise.
pub open spec fn readable(count: Option<libc::c_int>) -> nat {
    if 0 < supplied(count) <= MAX_ARITY {
        supplied(count) as nat
    } else {
        0
    }
}

/// The number of arguments that are worth reading before an invocation: no
/// handler looks at more.
pub fn arguments_to_read(count: Option<libc::c_int>) -> (n: usize)
    ensures
        n == readable(count),
{
    match count {
        Some(n) => if 0 < n && n <= 12 {
            n as usize
        } else {
            0
        },
        None => 0,
    }
}

/// The texts of `strings`.
pub open spec fn texts(strings: Seq<String>) -> Seq<Seq<char>> {
    Seq::new(strings.len(), |i: int| strings[i]@)
}

/// The texts of the arguments, by position; none where no arguments were
/// supplied. A handler of `n` parameters decodes the first `n` of them.
pub open spec fn arguments(args: Option<&[String]>) -> Seq<Seq<char>> {
    match args {
        Some(list) => texts(list@),
        None => Seq::empty(),
    }
}

/// Whether the argument at `position` is there and can be decoded as a `T`.
pub open spec fn decodable_at<T: FromArma>(given: Seq<Seq<char>>, position: int) -> bool {
    0 <= position < given.len() && decodes::<T>(given[position])
}

/// Whether the argument at `position` is there and decoding it gives `value`.
pub open spec fn decoded_at<T: FromArma>(given: Seq<Seq<char>>, position: int, value: T) -> bool {
    0 <= position < given.len() && decodes_as::<T>(given[position], value)
}

/// How an invocation ends before the handler is called: on a wrong count,
/// with the mismatch status of the count supplied; on an argument that is
/// missing or cannot be decoded, with the conversion status of the position
/// of the first such. The buffer stays as it was.
pub open spec fn settled(
    arity: nat,
    failure: Option<nat>,
    before: Seq<libc::c_char>,
    after: Seq<libc::c_char>,
    count: Option<libc::c_int>,
    status: libc::c_int,
) -> bool {
    if supplied(count) != arity {
        status == mismatch_report(supplied(count)) && after == before
    } else {
        failure matches Some(position) ==> status == conversion_status_spec(position) && after
            == before
    }
}

/// How the result `text` is handed over: where it fits into `size`, it is
/// written and the status is success; where it does not, the buffer stays as
/// it was and the status says so.
pub open spec fn responded(
    before: Seq<libc::c_char>,
    after: Seq<libc::c_char>,
    size: nat,
    text: Seq<char>,
    status: libc::c_int,
) -> bool {
    if fits(text, size) {
        status == STATUS_SUCCESS && after == written(before, text)
    } else {
        status == STATUS_OUTPUT_OVERFLOW && after == before
    }
}

/// How an invocation ends after the handler was called: its result, where it
/// has one, is handed over as [`responded`] says; where it has none, the
/// status is success and the buffer stays as it was.
pub open spec fn concluded(
    returns_value: bool,
    before: Seq<libc::c_char>,
    after: Seq<libc::c_char>,
    size: nat,
    text: Seq<char>,
    status: libc::c_int,
) -> bool {
    if returns_value {
        responded(before, after, size, text, status)
    } else {
        status == STATUS_SUCCESS && after == before
    }
}

/// Checks the count that was supplied against `arity`; gives the mismatch
/// status where the two differ.
pub fn check_count(arity: usize, count: Option<libc::c_int>) -> (checked: Result<(), libc::c_int>)
    requires
        arity <= MAX_ARITY,
    ensures
        match checked {
            Ok(_) => supplied(count) == arity,
            Err(status) => {
                &&& supplied(count) != arity
                &&& status == mismatch_report(supplied(count))
            },
        },
{
    let count: libc::c_int = match count {
        Some(n) => n,
        None => 0,
    };
    if count as i64 != arity as i64 {
        Err(mismatch_status(count))
    } else {
        Ok(())
    }
}

/// Decodes the argument at `position`, or gives the status of its failure.
/// An argument that is not there fails like one that cannot be decoded.
pub fn decode_argument<T: FromArma>(argv: &[String], position: usize) -> (decoded: Result<
    T,
    libc::c_int,
>)
    requires
        position <= MAX_REPORTABLE_POSITION,
    ensures
        match decoded {
            Ok(value) => decodable_at::<T>(texts(argv@), position as int) && decoded_at::<T>(
                texts(argv@),
                position as int,
                value,
            ),
            Err(status) => !decodable_at::<T>(texts(argv@), position as int) && status
                == conversion_status_spec(position as nat),
        },
{
    if position >= argv.len() {
        return Err(conversion_status(position));
    }
    match decode::<T>(argv[position].as_str()) {
        Ok(value) => Ok(value),
        Err(_) => Err(conversion_status(position)),
    }
}

/// Encodes the result of a handler and writes it into the output buffer.
pub fn respond<R: IntoArma>(ret: &R, output: &mut [libc::c_char], size: libc::size_t) -> (status:
    libc::c_int)
    requires
        size <= old(output)@.len(),
    ensures
        responded(
            old(output)@,
            final(output)@,
            size as nat,
            output_text(ret.arma_value()),
            status,
        ),
{
    let text = ret.to_arma().into_output();
    match write_cstr(text, output, size) {
        Some(_) => STATUS_SUCCESS,
        None => STATUS_OUTPUT_OVERFLOW,
    }
}

/// The parameters of a handler that are decoded from arguments, as one tuple.
///
/// The implementations, for tuples of up to [`MAX_ARITY`] types that can be
/// decoded, are in the module `shapes::parameters`.
pub trait FromArguments: Sized {
    /// The number of parameters.
    spec fn arity() -> nat;

    /// The position of the first argument that is missing or cannot be
    /// decoded as its parameter, if there is one.
    spec fn failure_position(arguments: Seq<Seq<char>>) -> Option<nat>;

    /// Whether decoding `arguments`, each as its parameter, gives `values`.
    spec fn decodes_to(arguments: Seq<Seq<char>>, values: Self) -> bool;

    /// The number of parameters.
    fn parameters() -> (n: usize)
        ensures
            n == Self::arity(),
            n <= MAX_ARITY,
    ;

    /// Decodes `argv` from left to right and stops at the first argument that
    /// is missing or cannot be decoded, with the status of its failure.
    fn decode(argv: &[String]) -> (decoded: Result<Self, libc::c_int>)
        ensures
            match decoded {
                Ok(values) => {
                    &&& Self::failure_position(texts(argv@)) is None
                    &&& Self::decodes_to(texts(argv@), values)
                },
                Err(status) => {
                    &&& Self::failure_position(texts(argv@)) matches Some(position)
                    &&& status == conversion_status_spec(position)
                },
            },
    ;
}

/// How the arguments of a caller are taken for parameters `T`: with a wrong
/// count, the mismatch status of the count supplied; with an argument that is
/// missing or cannot be decoded, the conversion status of the position of the
/// first such; else the decoded values.
pub open spec fn taken<T: FromArguments>(
    args: Option<&[String]>,
    count: Option<libc::c_int>,
    decoded: Result<T, libc::c_int>,
) -> bool {
    if supplied(count) != T::arity() {
        decoded matches Err(status) && status == mismatch_report(supplied(count))
    } else {
        match T::failure_position(arguments(args)) {
            Some(position) => decoded matches Err(status) && status == conversion_status_spec(
                position,
            ),
            None => decoded matches Ok(values) && T::decodes_to(arguments(args), values),
        }
    }
}

/// Checks the count and decodes the arguments for parameters `T`.
pub fn take<T: FromArguments>(args: Option<&[String]>, count: Option<libc::c_int>) -> (decoded:
    Result<T, libc::c_int>)
    ensures
        taken(args, count, decoded),
{
    match check_count(T::parameters(), count) {
        Ok(_) => {},
        Err(status) => {
            return Err(status);
        },
    }
    match args {
        Some(list) => T::decode(list),
        None => {
            let none: Vec<String> = Vec::new();
            assert(texts(none@) =~= arguments(args));
            T::decode(none.as_slice())
        },
    }
}

/// A handler together with the way to invoke it on raw arguments.
///
/// `A` is the tuple of the handler's parameters, `R` its result. The
/// implementations for callables are in the modules under `shapes`.
pub trait CommandFactory<A, R> {
    /// The number of parameters that are decoded from arguments.
    spec fn arity(&self) -> nat;

    /// Whether the handler can be called on whatever is decoded.
    spec fn ready(&self) -> bool;

    /// The position of the first argument that is missing or cannot be
    /// decoded, if there is one.
    spec fn failure_position(&self, arguments: Seq<Seq<char>>) -> Option<nat>;

    /// Whether the handler has a result that is written into the output buffer.
    spec fn returns_value(&self) -> bool;

    /// Whether the handler, called on the values decoded from `arguments`,
    /// may return with a result that `text` stands for; a handler without a
    /// result returns with the empty text.
    spec fn renders(&self, context: Context, arguments: Seq<Seq<char>>, text: Seq<char>) -> bool;

    /// Invokes the handler. `output` is the caller's buffer, of which the
    /// first `size` places may be used; `args` are the arguments and `count`
    /// their number, where the caller supplied any.
    fn call(
        &self,
        context: Context,
        output: &mut [libc::c_char],
        size: libc::size_t,
        args: Option<&[String]>,
        count: Option<libc::c_int>,
    ) -> (status: libc::c_int)
        requires
            self.ready(),
            size <= old(output)@.len(),
        ensures
            settled(
                self.arity(),
                self.failure_position(arguments(args)),
                old(output)@,
                final(output)@,
                count,
                status,
            ),
            supplied(count) == self.arity() && self.failure_position(arguments(args)) is None
                ==> exists|text: Seq<char>|
                #[trigger] self.renders(context, arguments(args), text) && concluded(
                    self.returns_value(),
                    old(output)@,
                    final(output)@,
                    size as nat,
                    text,
                    status,
                ),
    ;
}

/// What there is to know of a handler once its parameters and its result are
/// no longer known by type.
pub struct HandlerModel {
    /// The number of parameters that are decoded from arguments.
    pub arity: nat,
    /// Whether the handler has a result that is written into the output buffer.
    pub returns_value: bool,
    /// The position of the first argument that is missing or cannot be
    /// decoded, if there is one.
    pub failure_position: spec_fn(Seq<Seq<char>>) -> Option<nat>,
    /// Whether the handler, called on the values decoded from the arguments,
    /// may return with a result that the text stands for; a handler without a
    /// result returns with the empty text.
    pub renders: spec_fn(Context, Seq<Seq<char>>, Seq<char>) -> bool,
}

impl HandlerModel {
    /// The position of the first argument that is missing or cannot be
    /// decoded, if there is one.
    pub open spec fn fails_at(self, arguments: Seq<Seq<char>>) -> Option<nat> {
        (self.failure_position)(arguments)
    }

    /// Whether `text` stands for a result that the handler may give on the
    /// values decoded from `arguments`.
    pub open spec fn may_render(
        self,
        context: Context,
        arguments: Seq<Seq<char>>,
        text: Seq<char>,
    ) -> bool {
        (self.renders)(context, arguments, text)
    }

    /// What an invocation of the handler leaves behind: `status`, and the
    /// output buffer `after` where it was `before`.
    pub open spec fn invoked(
        self,
        context: Context,
        before: Seq<libc::c_char>,
        after: Seq<libc::c_char>,
        size: nat,
        args: Option<&[String]>,
        count: Option<libc::c_int>,
        status: libc::c_int,
    ) -> bool {
        &&& settled(self.arity, self.fails_at(arguments(args)), before, after, count, status)
        &&& supplied(count) == self.arity && self.fails_at(arguments(args)) is None
            ==> exists|text: Seq<char>|
            #[trigger] self.may_render(context, arguments(args), text) && concluded(
                self.returns_value,
                before,
                after,
                size,
                text,
                status,
            )
    }

    /// Whether the model is that of `command`.
    pub open spec fn describes<C: CommandFactory<I, R>, I, R>(self, command: C) -> bool {
        &&& self.arity == command.arity()
        &&& self.returns_value == command.returns_value()
        &&& forall|given: Seq<Seq<char>>| #[trigger]
            self.fails_at(given) == command.failure_position(given)
        &&& forall|context: Context, given: Seq<Seq<char>>, text: Seq<char>| #[trigger]
            self.may_render(context, given, text) == command.renders(context, given, text)
    }
}

/// A handler behind the one interface that a registry needs.
///
/// It promises of each handler what [`CommandFactory::call`] promises, and
/// asks nothing of the handler itself: that it is ready was settled when it
/// was registered.
pub trait CommandExecutor: Sized {
    /// The number of parameters that are decoded from arguments.
    spec fn arity(&self) -> nat;

    /// The position of the first argument that is missing or cannot be
    /// decoded, if there is one.
    spec fn failure_position(&self, arguments: Seq<Seq<char>>) -> Option<nat>;

    /// Whether the handler has a result that is written into the output buffer.
    spec fn returns_value(&self) -> bool;

    /// Whether the handler, called on the values decoded from `arguments`,
    /// may return with a result that `text` stands for; a handler without a
    /// result returns with the empty text.
    spec fn renders(&self, context: Context, arguments: Seq<Seq<char>>, text: Seq<char>) -> bool;

    /// Invokes the handler, as [`CommandFactory::call`] does.
    fn call(
        &self,
        context: Context,
        output: &mut [libc::c_char],
        size: libc::size_t,
        args: Option<&[String]>,
        count: Option<libc::c_int>,
    ) -> (status: libc::c_int)
        requires
            size <= old(output)@.len(),
        ensures
            settled(
                self.arity(),
                self.failure_position(arguments(args)),
                old(output)@,
                final(output)@,
                count,
                status,
            ),
            supplied(count) == self.arity() && self.failure_position(arguments(args)) is None
                ==> exists|text: Seq<char>|
                #[trigger] self.renders(context, arguments(args), text) && concluded(
                    self.returns_value(),
                    old(output)@,
                    final(output)@,
                    size as nat,
                    text,
                    status,
                ),
    ;
}

/// A handler's invocation is the invocation that its model tells of.
pub proof fn lemma_model_invoked<E: CommandExecutor>(
    handler: E,
    context: Context,
    before: Seq<libc::c_char>,
    after: Seq<libc::c_char>,
    size: nat,
    args: Option<&[String]>,
    count: Option<libc::c_int>,
    status: libc::c_int,
)
    requires
        settled(
            handler.arity(),
            handler.failure_position(arguments(args)),
            before,
            after,
            count,
            status,
        ),
        supplied(count) == handler.arity() && handler.failure_position(arguments(args)) is None
            ==> exists|text: Seq<char>|
            #[trigger] handler.renders(context, arguments(args), text) && concluded(
                handler.returns_value(),
                before,
                after,
                size,
                text,
                status,
            ),
    ensures
        model_of(handler).invoked(context, before, after, size, args, count, status),
{
    let given = arguments(args);
    let model = model_of(handler);
    if supplied(count) == handler.arity() && handler.failure_position(given) is None {
        let text = choose|text: Seq<char>|
            #[trigger] handler.renders(context, given, text) && concluded(
                handler.returns_value(),
                before,
                after,
                size,
                text,
                status,
            );
        assert(model.may_render(context, given, text));
    }
}

/// What there is to know of `handler`.
pub open spec fn model_of<E: CommandExecutor>(handler: E) -> HandlerModel {
    HandlerModel {
        arity: handler.arity(),
        returns_value: handler.returns_value(),
        failure_position: |given: Seq<Seq<char>>| handler.failure_position(given),
        renders: |context: Context, given: Seq<Seq<char>>, text: Seq<char>|
            handler.renders(context, given, text),
    }
}

/// A registered handler: a callable that is ready, behind the interface of a
/// registry.
pub struct CommandHandler<C, I, R> where C: CommandFactory<I, R> {
    command: C,
    shape: PhantomData<(I, R)>,
}

impl<C, I, R> CommandHandler<C, I, R> where C: CommandFactory<I, R> {
    #[verifier::type_invariant]
    spec fn command_is_ready(&self) -> bool {
        self.command.ready()
    }
}

impl<C, I, R> CommandExecutor for CommandHandler<C, I, R> where C: CommandFactory<I, R> {
    closed spec fn arity(&self) -> nat {
        self.command.arity()
    }

    closed spec fn failure_position(&self, arguments: Seq<Seq<char>>) -> Option<nat> {
        self.command.failure_position(arguments)
    }

    closed spec fn returns_value(&self) -> bool {
        self.command.returns_value()
    }

    closed spec fn renders(&self, context: Context, arguments: Seq<Seq<char>>, text: Seq<char>) -> bool {
        self.command.renders(context, arguments, text)
    }

    fn call(
        &self,
        context: Context,
        output: &mut [libc::c_char],
        size: libc::size_t,
        args: Option<&[String]>,
        count: Option<libc::c_int>,
    ) -> (status: libc::c_int) {
        proof {
            use_type_invariant(self);
        }
        let status = self.command.call(context, output, size, args, count);
        proof {
            let given = arguments(args);
            if supplied(count) == self.arity() && self.failure_position(given) is None {
                let text = choose|text: Seq<char>|
                    #[trigger] self.command.renders(context, given, text) && concluded(
                        self.command.returns_value(),
                        old(output)@,
                        output@,
                        size as nat,
                        text,
                        status,
                    );
                assert(self.renders(context, given, text));
            }
        }
        status
    }
}

/// Makes a callable that is ready into a registered handler. The handler is
/// the callable behind another interface: it has its number of parameters,
/// fails on the same arguments at the same positions, and gives the same
/// results.
pub fn fn_handler<C, I, R>(command: C) -> (handler: CommandHandler<C, I, R>) where
    C: CommandFactory<I, R>,

    requires
        command.ready(),
    ensures
        handler.arity() == command.arity(),
        handler.returns_value() == command.returns_value(),
        forall|given: Seq<Seq<char>>| #[trigger]
            handler.failure_position(given) == command.failure_position(given),
        forall|context: Context, given: Seq<Seq<char>>, text: Seq<char>| #[trigger]
            handler.renders(context, given, text) == command.renders(context, given, text),
        model_of(handler).describes(command),
{
    CommandHandler { command, shape: PhantomData }
}

} // verus!
