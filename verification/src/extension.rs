//! The extension: a version, a registry of handlers and the queue of
//! notifications, and the builder that puts one together.

use vstd::prelude::*;
use vstd::string::StringExecFns;
use vstd::utf8::{decode_utf8, encode_utf8, valid_utf8};
use crate::queue::CallbackQueue;
use crate::command::{CommandFactory, CommandHandler, HandlerModel};
use crate::context::Context;
use crate::group::{dispatched, split_path, Group, Nothing, Registry, WithCommand, WithGroup};
use crate::status::STATUS_INVALID_NAME;

verus! {

/// `core::str::from_utf8` gives the text that `bytes` encode, where they are
/// valid UTF-8, and an error where they are not.
#[verifier::external_body]
fn text_of(bytes: &[u8]) -> (text: Option<&str>)
    ensures
        text is Some <==> valid_utf8(bytes@),
        text matches Some(s) ==> encode_utf8(s@) == bytes@,
{
    std::str::from_utf8(bytes).ok()
}

/// The version that an extension has unless it is given one.
pub open spec fn default_version() -> Seq<char> {
    seq!['0', '.', '1', '.', '0']
}

/// Everything about an extension.
pub struct Extension<G> {
    version: String,
    group: Group<G>,
    allow_no_args: bool,
    callback_queue: CallbackQueue,
}

impl Extension<Nothing> {
    /// Starts a new extension: no handlers, not callable without arguments.
    pub fn build() -> (builder: ExtensionBuilder<Nothing>)
        ensures
            builder.spec_version() == default_version(),
            forall|path: Seq<char>| #[trigger] builder.spec_group().resolve(path) is None,
            !builder.spec_allow_no_args(),
    {
        proof {
            reveal_strlit("0.1.0");
            assert("0.1.0"@ =~= default_version());
        }
        ExtensionBuilder {
            version: String::from_str("0.1.0"),
            group: Group::new(),
            allow_no_args: false,
        }
    }
}

impl<G: Registry> Extension<G> {
    /// The version of the extension.
    pub closed spec fn spec_version(&self) -> Seq<char> {
        self.version@
    }

    /// The registry of the extension.
    pub closed spec fn spec_group(&self) -> Group<G> {
        self.group
    }

    /// Whether the extension can be called without any arguments.
    pub closed spec fn spec_allow_no_args(&self) -> bool {
        self.allow_no_args
    }

    /// The queue of the extension's notifications.
    pub closed spec fn spec_queue(&self) -> CallbackQueue {
        self.callback_queue
    }

    /// The version of the extension.
    pub fn version(&self) -> (version: &str)
        ensures
            version@ == self.spec_version(),
    {
        self.version.as_str()
    }

    /// Whether the extension can be called without any arguments.
    pub fn allow_no_args(&self) -> (allowed: bool)
        ensures
            allowed == self.spec_allow_no_args(),
    {
        self.allow_no_args
    }

    /// A context on the extension's queue, for an output buffer without capacity.
    pub fn context(&self) -> (context: Context)
        ensures
            context == Context::on(self.spec_queue(), 0),
            context.queue() == self.spec_queue(),
            context.capacity() == 0,
    {
        Context::new(self.callback_queue.clone())
    }

    /// A handle to the extension's queue, for the worker that delivers from it.
    pub fn callback_queue(&self) -> (queue: CallbackQueue)
        ensures
            queue == self.spec_queue(),
    {
        self.callback_queue.clone()
    }

    /// Invokes the handler that the name `function` leads to.
    ///
    /// `function` holds the bytes of the name. Where they are no text, or the
    /// text leads to no handler, the status says so and nothing else happens.
    /// Otherwise the handler is invoked with a context that tells it `size`.
    /// Whatever count and arguments are supplied, the call ends with a status.
    pub fn handle(
        &self,
        function: &[u8],
        output: &mut [libc::c_char],
        size: libc::size_t,
        args: Option<&[String]>,
        count: Option<libc::c_int>,
    ) -> (status: libc::c_int)
        requires
            size <= old(output)@.len(),
        ensures
            !valid_utf8(function@) ==> status == STATUS_INVALID_NAME && final(output)@ == old(
                output,
            )@,
            valid_utf8(function@) ==> dispatched(
                self.spec_group().resolve(decode_utf8(function@)),
                Context::on(self.spec_queue(), size),
                old(output)@,
                final(output)@,
                size as nat,
                args,
                count,
                status,
            ),
    {
        let name = match text_of(function) {
            Some(name) => name,
            None => {
                return STATUS_INVALID_NAME;
            },
        };
        proof {
            vstd::utf8::encode_utf8_decode_utf8(name@);
        }
        self.group.handle(self.context().with_buffer_size(size), name, output, size, args, count)
    }
}

/// Puts an extension together.
pub struct ExtensionBuilder<G> {
    version: String,
    group: Group<G>,
    allow_no_args: bool,
}

impl<G: Registry> ExtensionBuilder<G> {
    /// The version that the extension will have.
    pub closed spec fn spec_version(&self) -> Seq<char> {
        self.version@
    }

    /// The registry that the extension will have.
    pub closed spec fn spec_group(&self) -> Group<G> {
        self.group
    }

    /// Whether the extension will be callable without any arguments.
    pub closed spec fn spec_allow_no_args(&self) -> bool {
        self.allow_no_args
    }

    /// Sets the version of the extension.
    pub fn version(self, version: String) -> (builder: ExtensionBuilder<G>)
        ensures
            builder.spec_version() == version@,
            builder.spec_group() == self.spec_group(),
            builder.spec_allow_no_args() == self.spec_allow_no_args(),
    {
        ExtensionBuilder { version, group: self.group, allow_no_args: self.allow_no_args }
    }

    /// Adds a group to the extension, under `name`.
    pub fn group<C: Registry>(self, name: &str, group: Group<C>) -> (builder: ExtensionBuilder<
        WithGroup<C, G>,
    >)
        ensures
            builder.spec_version() == self.spec_version(),
            builder.spec_allow_no_args() == self.spec_allow_no_args(),
            forall|path: Seq<char>| #[trigger]
                builder.spec_group().resolve(path) == (match split_path(path) {
                    Some((head, rest)) => if head == name@ {
                        group.resolve(rest)
                    } else {
                        self.spec_group().resolve(path)
                    },
                    None => self.spec_group().resolve(path),
                }),
    {
        ExtensionBuilder {
            version: self.version,
            group: self.group.group(name, group),
            allow_no_args: self.allow_no_args,
        }
    }

    /// Allows the extension to be called without any arguments.
    pub fn allow_no_args(self) -> (builder: ExtensionBuilder<G>)
        ensures
            builder.spec_allow_no_args(),
            builder.spec_version() == self.spec_version(),
            builder.spec_group() == self.spec_group(),
    {
        ExtensionBuilder { version: self.version, group: self.group, allow_no_args: true }
    }

    /// Adds a command to the extension, under `name`: the name then leads to
    /// a handler that is `handler`, and every other path leads where it led.
    pub fn command<F, I, R>(self, name: &str, handler: F) -> (builder: ExtensionBuilder<
        WithCommand<CommandHandler<F, I, R>, G>,
    >) where F: CommandFactory<I, R>
        requires
            handler.ready(),
        ensures
            builder.spec_version() == self.spec_version(),
            builder.spec_allow_no_args() == self.spec_allow_no_args(),
            forall|path: Seq<char>|
                path != name@ ==> #[trigger] builder.spec_group().resolve(path)
                    == self.spec_group().resolve(path),
            split_path(name@) is None ==> (builder.spec_group().resolve(name@) matches Some(found)
                && found.describes(handler)),
            split_path(name@) is Some ==> builder.spec_group().resolve(name@)
                == self.spec_group().resolve(name@),
    {
        ExtensionBuilder {
            version: self.version,
            group: self.group.command(name, handler),
            allow_no_args: self.allow_no_args,
        }
    }

    /// Builds the extension, with a new queue of notifications.
    pub fn finish(self) -> (extension: Extension<G>)
        ensures
            extension.spec_version() == self.spec_version(),
            extension.spec_group() == self.spec_group(),
            extension.spec_allow_no_args() == self.spec_allow_no_args(),
    {
        Extension {
            version: self.version,
            group: self.group,
            allow_no_args: self.allow_no_args,
            callback_queue: CallbackQueue::new(),
        }
    }
}

} // verus!
