//! The registry of handlers: commands by name, and groups of commands within
//! groups, reached by a path of names.
//!
//! A registry is built entry by entry, and its type grows with it: every
//! handler is kept with its own type, behind the interface
//! [`CommandExecutor`], so that what was registered is known of what is found.

use vstd::prelude::*;
use vstd::string::StringExecFns;
use crate::command::{
    fn_handler, lemma_model_invoked, model_of, CommandExecutor, CommandFactory, CommandHandler,
    HandlerModel,
};
use crate::context::Context;
use crate::status::STATUS_INVALID_NAME;
use crate::text::{chars_of, find_first, first_index_of, push_chars};

verus! {

/// The character that parts the name of a group from what follows.
pub const SEPARATOR: char = ':';

/// The name of the group that `path` begins with, and the rest of the path
/// behind the separator; `None` for a path without a separator.
pub open spec fn split_path(path: Seq<char>) -> Option<(Seq<char>, Seq<char>)> {
    let at = first_index_of(path, SEPARATOR, 0);
    if 0 <= at < path.len() {
        Some((path.take(at), path.skip(at + 1)))
    } else {
        None
    }
}

/// How a dispatch ends: where the path led to a handler, as the invocation of
/// that handler; where it led to none, with the status of an invalid name and
/// the buffer as it was.
pub open spec fn dispatched(
    target: Option<HandlerModel>,
    context: Context,
    before: Seq<libc::c_char>,
    after: Seq<libc::c_char>,
    size: nat,
    args: Option<&[String]>,
    count: Option<libc::c_int>,
    status: libc::c_int,
) -> bool {
    match target {
        Some(handler) => handler.invoked(context, before, after, size, args, count, status),
        None => status == STATUS_INVALID_NAME && after == before,
    }
}

/// The entries of a registry: what a path leads to, and the way there.
pub trait Registry {
    /// The handler that `path` leads to, if it leads to one.
    spec fn resolve(&self, path: Seq<char>) -> Option<HandlerModel>;

    /// Invokes the handler that `function` leads to.
    fn handle(
        &self,
        context: Context,
        function: &str,
        output: &mut [libc::c_char],
        size: libc::size_t,
        args: Option<&[String]>,
        count: Option<libc::c_int>,
    ) -> (status: libc::c_int)
        requires
            size <= old(output)@.len(),
        ensures
            dispatched(
                self.resolve(function@),
                context,
                old(output)@,
                final(output)@,
                size as nat,
                args,
                count,
                status,
            ),
    ;
}

/// No entries.
pub struct Nothing;

impl Registry for Nothing {
    open spec fn resolve(&self, path: Seq<char>) -> Option<HandlerModel> {
        None
    }

    fn handle(
        &self,
        context: Context,
        function: &str,
        output: &mut [libc::c_char],
        size: libc::size_t,
        args: Option<&[String]>,
        count: Option<libc::c_int>,
    ) -> (status: libc::c_int) {
        STATUS_INVALID_NAME
    }
}

/// The entries `rest`, and before them a command: a path that is its name
/// leads to it, whatever `rest` holds under that name.
pub struct WithCommand<H, Rest> {
    name: String,
    handler: H,
    rest: Rest,
}

impl<H: CommandExecutor, Rest: Registry> Registry for WithCommand<H, Rest> {
    closed spec fn resolve(&self, path: Seq<char>) -> Option<HandlerModel> {
        if split_path(path) is None && path == self.name@ {
            Some(model_of(self.handler))
        } else {
            self.rest.resolve(path)
        }
    }

    fn handle(
        &self,
        context: Context,
        function: &str,
        output: &mut [libc::c_char],
        size: libc::size_t,
        args: Option<&[String]>,
        count: Option<libc::c_int>,
    ) -> (status: libc::c_int) {
        let path = chars_of(function);
        let at = find_first(&path, SEPARATOR);
        if at == path.len() && String::from_str(function) == self.name {
            let status = self.handler.call(context, output, size, args, count);
            proof {
                lemma_model_invoked(
                    self.handler,
                    context,
                    old(output)@,
                    output@,
                    size as nat,
                    args,
                    count,
                    status,
                );
            }
            status
        } else {
            self.rest.handle(context, function, output, size, args, count)
        }
    }
}

/// The entries `rest`, and before them a group: a path that begins with its
/// name and a separator leads into it, whatever `rest` holds under that name.
pub struct WithGroup<Child, Rest> {
    name: String,
    child: Child,
    rest: Rest,
}

impl<Child: Registry, Rest: Registry> Registry for WithGroup<Child, Rest> {
    closed spec fn resolve(&self, path: Seq<char>) -> Option<HandlerModel> {
        match split_path(path) {
            Some((head, tail)) => if head == self.name@ {
                self.child.resolve(tail)
            } else {
                self.rest.resolve(path)
            },
            None => self.rest.resolve(path),
        }
    }

    fn handle(
        &self,
        context: Context,
        function: &str,
        output: &mut [libc::c_char],
        size: libc::size_t,
        args: Option<&[String]>,
        count: Option<libc::c_int>,
    ) -> (status: libc::c_int) {
        let path = chars_of(function);
        let n = path.len();
        let at = find_first(&path, SEPARATOR);
        if at < n {
            let mut head = String::new();
            push_chars(&mut head, &path, 0, at);
            assert(head@ =~= path@.take(at as int));
            if head == self.name {
                let mut tail = String::new();
                push_chars(&mut tail, &path, at + 1, n);
                assert(tail@ =~= path@.skip(at + 1));
                return self.child.handle(context, tail.as_str(), output, size, args, count);
            }
        }
        self.rest.handle(context, function, output, size, args, count)
    }
}

/// A group of commands, and of groups of commands.
///
/// A command is reached by its name, a command in a group by the name of the
/// group, a separator and the path within the group. `R` is the type of the
/// entries; it is made by [`Group::new`], [`Group::command`] and
/// [`Group::group`] and need not be written out.
pub struct Group<R> {
    entries: R,
}

impl Group<Nothing> {
    /// A group without commands and without groups.
    pub fn new() -> (group: Group<Nothing>)
        ensures
            forall|path: Seq<char>| #[trigger] group.resolve(path) is None,
    {
        Group { entries: Nothing }
    }
}

impl<R: Registry> Group<R> {
    /// The handler that `path` leads to, if it leads to one.
    pub closed spec fn resolve(&self, path: Seq<char>) -> Option<HandlerModel> {
        self.entries.resolve(path)
    }

    /// Registers `handler` under `name`, in place of what stood there: the
    /// name then leads to a handler that is `handler`, and every other path
    /// leads where it led. A name with a separator in it is never reached.
    pub fn command<F, I, Ret>(self, name: &str, handler: F) -> (group: Group<
        WithCommand<CommandHandler<F, I, Ret>, R>,
    >) where F: CommandFactory<I, Ret>
        requires
            handler.ready(),
        ensures
            forall|path: Seq<char>|
                path != name@ ==> #[trigger] group.resolve(path) == self.resolve(path),
            split_path(name@) is None ==> (group.resolve(name@) matches Some(found)
                && found.describes(handler)),
            split_path(name@) is Some ==> group.resolve(name@) == self.resolve(name@),
    {
        Group {
            entries: WithCommand {
                name: String::from_str(name),
                handler: fn_handler(handler),
                rest: self.entries,
            },
        }
    }

    /// Registers the group `child` under `name`, in place of what stood there.
    pub fn group<C: Registry>(self, name: &str, child: Group<C>) -> (group: Group<WithGroup<C, R>>)
        ensures
            forall|path: Seq<char>| #[trigger]
                group.resolve(path) == (match split_path(path) {
                    Some((head, rest)) => if head == name@ {
                        child.resolve(rest)
                    } else {
                        self.resolve(path)
                    },
                    None => self.resolve(path),
                }),
    {
        Group {
            entries: WithGroup {
                name: String::from_str(name),
                child: child.entries,
                rest: self.entries,
            },
        }
    }

    /// Invokes the handler that `function` leads to. A path that leads to no
    /// handler is answered like a name that is no text.
    pub fn handle(
        &self,
        context: Context,
        function: &str,
        output: &mut [libc::c_char],
        size: libc::size_t,
        args: Option<&[String]>,
        count: Option<libc::c_int>,
    ) -> (status: libc::c_int)
        requires
            size <= old(output)@.len(),
        ensures
            dispatched(
                self.resolve(function@),
                context,
                old(output)@,
                final(output)@,
                size as nat,
                args,
                count,
                status,
            ),
    {
        self.entries.handle(context, function, output, size, args, count)
    }
}

} // verus!
