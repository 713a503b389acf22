//! What a handler is given besides its arguments.

use vstd::prelude::*;
use crate::callback::CallbackEntry;
use crate::queue::CallbackQueue;
use crate::convert::IntoArma;

verus! {

/// The context of one invocation: the capacity of the output buffer, and a
/// handle to the queue of notifications. A handler may keep it and use it
/// after its invocation has returned.
pub struct Context {
    queue: CallbackQueue,
    buffer_size: libc::size_t,
}

impl Context {
    /// The context on `queue` for an output buffer of capacity `buffer_size`.
    pub closed spec fn on(queue: CallbackQueue, buffer_size: libc::size_t) -> Context {
        Context { queue, buffer_size }
    }

    /// The capacity of the output buffer that the context tells of.
    pub closed spec fn capacity(&self) -> libc::size_t {
        self.buffer_size
    }

    /// The queue that the context puts notifications into.
    pub closed spec fn queue(&self) -> CallbackQueue {
        self.queue
    }

    /// A context on `queue`, for an output buffer without capacity.
    pub fn new(queue: CallbackQueue) -> (context: Context)
        ensures
            context == Context::on(queue, 0),
            context.capacity() == 0,
            context.queue() == queue,
    {
        Context { queue, buffer_size: 0 }
    }

    /// The same context for an output buffer of capacity `buffer_size`.
    pub fn with_buffer_size(self, buffer_size: libc::size_t) -> (context: Context)
        ensures
            context == Context::on(self.queue(), buffer_size),
            context.capacity() == buffer_size,
            context.queue() == self.queue(),
    {
        Context { queue: self.queue, buffer_size }
    }

    /// The capacity of the output buffer.
    pub fn buffer_size(&self) -> (size: libc::size_t)
        ensures
            size == self.capacity(),
    {
        self.buffer_size
    }

    /// Puts the notification [`CallbackEntry::new`]`(name, func, data)` into
    /// the queue and returns at once. The queue is shared with every other
    /// context and with the worker.
    pub fn callback<V: IntoArma>(&self, name: &str, func: &str, data: Option<V>) {
        self.queue.push(CallbackEntry::new(name, func, data))
    }
}

impl Clone for Context {
    /// One more context with the same capacity, on the same queue.
    fn clone(&self) -> (copy: Self)
        ensures
            copy == *self,
    {
        Context { queue: self.queue.clone(), buffer_size: self.buffer_size }
    }
}

} // verus!
