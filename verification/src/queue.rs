//! The queue in which notifications wait for the worker.
//!
//! The queue is a `crossbeam_queue::SegQueue`. While it has one owner
//! ([`OwnedQueue`]) it is known entry by entry, and it is first in, first out
//! ([`lemma_first_in_first_out`]). Once it is shared ([`CallbackQueue`]) any
//! number of producers and the worker use it at the same time. The shared
//! queue is kept out of sight of the verifier: what waits in it changes while
//! a handle to it stays the same, so nothing can be said of it through a
//! handle.

use vstd::prelude::*;
use crossbeam_queue::SegQueue;
use std::sync::Arc;
use crate::callback::{CallbackEntry, CallbackEntryView};

verus! {

/// `crossbeam_queue::SegQueue`, an unbounded queue that hands its items out in
/// the order in which they came.
#[verifier::external_type_specification]
#[verifier::external_body]
#[verifier::reject_recursive_types(T)]
pub struct ExSegQueue<T>(SegQueue<T>);

/// The entries that wait in a queue, the oldest first.
pub uninterp spec fn waiting(queue: SegQueue<CallbackEntry>) -> Seq<CallbackEntryView>;

/// `SegQueue::new` makes a queue in which nothing waits.
#[verifier::external_body]
fn new_queue() -> (queue: SegQueue<CallbackEntry>)
    ensures
        waiting(queue) == Seq::<CallbackEntryView>::empty(),
{
    SegQueue::new()
}

/// `SegQueue::push_mut` puts the entry behind all that wait. The exclusive
/// reference keeps every other holder out while it does.
#[verifier::external_body]
fn push_exclusive(queue: &mut SegQueue<CallbackEntry>, entry: CallbackEntry)
    ensures
        waiting(*final(queue)) == waiting(*old(queue)).push(entry@),
{
    queue.push_mut(entry)
}

/// `SegQueue::pop_mut` takes out the entry that has waited longest, or gives
/// `None` where nothing waits. The exclusive reference keeps every other
/// holder out while it does.
#[verifier::external_body]
fn pop_exclusive(queue: &mut SegQueue<CallbackEntry>) -> (head: Option<CallbackEntry>)
    ensures
        match head {
            Some(entry) => waiting(*old(queue)).len() > 0 && entry@ == waiting(*old(queue))[0]
                && waiting(*final(queue)) == waiting(*old(queue)).drop_first(),
            None => waiting(*old(queue)).len() == 0 && waiting(*final(queue)) == waiting(
                *old(queue),
            ),
        },
{
    queue.pop_mut()
}

/// One thing done to a queue.
pub enum QueueOp {
    /// An entry is put in.
    Push(CallbackEntryView),
    /// The entry that has waited longest is asked for.
    Pop,
}

/// What waits after `op`, where `before` waited.
pub open spec fn after(before: Seq<CallbackEntryView>, op: QueueOp) -> Seq<CallbackEntryView> {
    match op {
        QueueOp::Push(entry) => before.push(entry),
        QueueOp::Pop => if before.len() > 0 {
            before.drop_first()
        } else {
            before
        },
    }
}

/// What `op` hands out, where `before` waited.
pub open spec fn handed_out(before: Seq<CallbackEntryView>, op: QueueOp) -> Option<
    CallbackEntryView,
> {
    match op {
        QueueOp::Push(_) => None,
        QueueOp::Pop => if before.len() > 0 {
            Some(before[0])
        } else {
            None
        },
    }
}

/// What waits in a new queue after `ops`.
pub open spec fn waiting_after(ops: Seq<QueueOp>) -> Seq<CallbackEntryView>
    decreases ops.len(),
{
    if ops.len() == 0 {
        Seq::empty()
    } else {
        after(waiting_after(ops.drop_last()), ops.last())
    }
}

/// The entries that `ops` put in, in the order in which they were put in.
pub open spec fn pushed(ops: Seq<QueueOp>) -> Seq<CallbackEntryView>
    decreases ops.len(),
{
    if ops.len() == 0 {
        Seq::empty()
    } else {
        match ops.last() {
            QueueOp::Push(entry) => pushed(ops.drop_last()).push(entry),
            QueueOp::Pop => pushed(ops.drop_last()),
        }
    }
}

/// The entries that `ops` handed out of a new queue, in the order in which
/// they came out.
pub open spec fn popped(ops: Seq<QueueOp>) -> Seq<CallbackEntryView>
    decreases ops.len(),
{
    if ops.len() == 0 {
        Seq::empty()
    } else {
        match handed_out(waiting_after(ops.drop_last()), ops.last()) {
            Some(entry) => popped(ops.drop_last()).push(entry),
            None => popped(ops.drop_last()),
        }
    }
}

/// First in, first out: whatever is done to a new queue, the entries that came
/// out, followed by those that still wait, are the entries that were put in, in
/// the order in which they were put in.
pub proof fn lemma_first_in_first_out(ops: Seq<QueueOp>)
    ensures
        popped(ops) + waiting_after(ops) == pushed(ops),
    decreases ops.len(),
{
    if ops.len() == 0 {
        assert(popped(ops) + waiting_after(ops) =~= pushed(ops));
    } else {
        let earlier = ops.drop_last();
        lemma_first_in_first_out(earlier);
        let out = popped(earlier);
        let held = waiting_after(earlier);
        match ops.last() {
            QueueOp::Push(entry) => {
                assert(out + held.push(entry) =~= (out + held).push(entry));
            },
            QueueOp::Pop => {
                if held.len() > 0 {
                    assert(out.push(held[0]) + held.drop_first() =~= out + held);
                }
            },
        }
    }
}

/// Putting `entries` in, one after the other.
pub open spec fn pushes(entries: Seq<CallbackEntryView>) -> Seq<QueueOp> {
    Seq::new(entries.len(), |i: int| QueueOp::Push(entries[i]))
}

/// Asking `times` times for the entry that has waited longest.
pub open spec fn pops(times: nat) -> Seq<QueueOp> {
    Seq::new(times, |i: int| QueueOp::Pop)
}

proof fn lemma_after_pushes(entries: Seq<CallbackEntryView>)
    ensures
        waiting_after(pushes(entries)) == entries,
        pushed(pushes(entries)) == entries,
    decreases entries.len(),
{
    if entries.len() == 0 {
        assert(waiting_after(pushes(entries)) =~= entries);
        assert(pushed(pushes(entries)) =~= entries);
    } else {
        lemma_after_pushes(entries.drop_last());
        assert(pushes(entries).drop_last() =~= pushes(entries.drop_last()));
        assert(pushes(entries).last() == QueueOp::Push(entries.last()));
        assert(entries.drop_last().push(entries.last()) =~= entries);
    }
}

proof fn lemma_after_pops(base: Seq<QueueOp>, times: nat)
    requires
        times <= waiting_after(base).len(),
    ensures
        waiting_after(base + pops(times)) == waiting_after(base).skip(times as int),
        pushed(base + pops(times)) == pushed(base),
    decreases times,
{
    let ops = base + pops(times);
    if times == 0 {
        assert(ops =~= base);
        assert(waiting_after(base).skip(0) =~= waiting_after(base));
    } else {
        let fewer = (times - 1) as nat;
        lemma_after_pops(base, fewer);
        assert(ops.drop_last() =~= base + pops(fewer));
        assert(ops.last() == QueueOp::Pop);
        let held = waiting_after(base);
        assert(held.skip(fewer as int).drop_first() =~= held.skip(times as int));
    }
}

/// Nothing is lost, doubled or overtaken: the entries that are put into a new
/// queue, one after the other, come out in the same order when as many are
/// asked for, and nothing waits behind them.
pub proof fn lemma_out_as_put_in(entries: Seq<CallbackEntryView>)
    ensures
        popped(pushes(entries) + pops(entries.len())) == entries,
        waiting_after(pushes(entries) + pops(entries.len())) == Seq::<CallbackEntryView>::empty(),
{
    let ops = pushes(entries) + pops(entries.len());
    lemma_after_pushes(entries);
    lemma_after_pops(pushes(entries), entries.len());
    lemma_first_in_first_out(ops);
    assert(entries.skip(entries.len() as int) =~= Seq::<CallbackEntryView>::empty());
    assert(popped(ops) + Seq::<CallbackEntryView>::empty() =~= popped(ops));
}

/// A queue of pending notifications that has one owner.
///
/// While the queue has one owner, what waits in it is known entry by entry:
/// its view is the sequence of the waiting entries, the oldest first. Once it
/// is shared ([`OwnedQueue::share`]) that knowledge ends.
pub struct OwnedQueue {
    inner: SegQueue<CallbackEntry>,
}

impl View for OwnedQueue {
    type V = Seq<CallbackEntryView>;

    closed spec fn view(&self) -> Seq<CallbackEntryView> {
        waiting(self.inner)
    }
}

impl OwnedQueue {
    /// A queue in which nothing waits.
    pub fn new() -> (queue: OwnedQueue)
        ensures
            queue@ == Seq::<CallbackEntryView>::empty(),
    {
        OwnedQueue { inner: new_queue() }
    }

    /// Puts `entry` behind all that wait.
    pub fn push_mut(&mut self, entry: CallbackEntry)
        ensures
            final(self)@ == after(old(self)@, QueueOp::Push(entry@)),
    {
        push_exclusive(&mut self.inner, entry)
    }

    /// Takes out the entry that has waited longest; `None` where nothing waits.
    pub fn pop_mut(&mut self) -> (head: Option<CallbackEntry>)
        ensures
            final(self)@ == after(old(self)@, QueueOp::Pop),
            match head {
                Some(entry) => handed_out(old(self)@, QueueOp::Pop) == Some(entry@),
                None => handed_out(old(self)@, QueueOp::Pop) is None,
            },
    {
        pop_exclusive(&mut self.inner)
    }

    /// Gives the queue up to be shared by any number of producers and the
    /// worker.
    pub fn share(self) -> (shared: CallbackQueue) {
        share_queue(self.inner)
    }
}

/// A handle to the shared queue of pending notifications.
///
/// Any number of producers and the worker use the queue at the same time,
/// without waiting for each other. Each sees only what it puts in or gets
/// out: nothing is said here of what waits in the queue.
#[verifier::external_body]
pub struct CallbackQueue {
    inner: Arc<SegQueue<CallbackEntry>>,
}

/// `Arc::new` puts the queue where any number of handles can reach it.
#[verifier::external_body]
fn share_queue(queue: SegQueue<CallbackEntry>) -> (shared: CallbackQueue) {
    CallbackQueue { inner: Arc::new(queue) }
}

/// `Arc::clone` makes one more handle to the same queue.
#[verifier::external_body]
fn clone_handle(queue: &CallbackQueue) -> (handle: CallbackQueue)
    ensures
        handle == *queue,
{
    CallbackQueue { inner: Arc::clone(&queue.inner) }
}

/// `SegQueue::push` through a shared handle. Other holders of the queue may
/// push and pop at the same time; the call returns nothing.
#[verifier::external_body]
fn push_shared(queue: &CallbackQueue, entry: CallbackEntry) {
    queue.inner.push(entry)
}

/// `SegQueue::pop` through a shared handle. Other holders of the queue may
/// push and pop at the same time, so nothing is said of what comes out.
#[verifier::external_body]
fn pop_shared(queue: &CallbackQueue) -> (head: Option<CallbackEntry>) {
    queue.inner.pop()
}

impl CallbackQueue {
    /// A new queue, shared from the start.
    pub fn new() -> (queue: CallbackQueue) {
        OwnedQueue::new().share()
    }

    /// Puts `entry` into the queue.
    pub fn push(&self, entry: CallbackEntry) {
        push_shared(self, entry)
    }

    /// Takes the entry out of the queue that has waited longest, if one waits.
    pub fn pop(&self) -> (head: Option<CallbackEntry>) {
        pop_shared(self)
    }
}

impl Clone for CallbackQueue {
    /// One more handle to the same queue.
    fn clone(&self) -> (handle: Self)
        ensures
            handle == *self,
    {
        clone_handle(self)
    }
}

} // verus!
