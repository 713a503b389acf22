//! Notifications from the native side to the caller: the entries, what is
//! delivered for them, and the decisions of the worker that delivers them.
//!
//! The worker itself runs outside this library: it performs an action, tells
//! [`step`] what came of it, and is told what to do next. The queue that the
//! entries wait in is in [`crate::queue`].

use vstd::prelude::*;
use vstd::utf8::encode_utf8;
use vstd::string::StringExecFns;
use crate::convert::IntoArma;
use crate::value::{output_text, Value, ValueView};

verus! {

/// One pending notification.
#[derive(Debug, PartialEq, Eq)]
pub struct CallbackEntry {
    /// The name of the event.
    pub name: String,
    /// The name of the function.
    pub function: String,
    /// The data that goes with it, if any.
    pub data: Option<Value>,
}

/// What a [`CallbackEntry`] holds, as mathematics.
pub struct CallbackEntryView {
    pub name: Seq<char>,
    pub function: Seq<char>,
    pub data: Option<ValueView>,
}

impl View for CallbackEntry {
    type V = CallbackEntryView;

    open spec fn view(&self) -> CallbackEntryView {
        CallbackEntryView {
            name: self.name@,
            function: self.function@,
            data: match self.data {
                Some(v) => Some(v@),
                None => None,
            },
        }
    }
}

impl CallbackEntry {
    /// The entry for a notification of the event `name` to `function`, with
    /// the value that stands for `data`, if there is any.
    pub fn new<V: IntoArma>(name: &str, function: &str, data: Option<V>) -> (entry: CallbackEntry)
        ensures
            entry@ == (CallbackEntryView {
                name: name@,
                function: function@,
                data: match data {
                    Some(value) => Some(value.arma_value()),
                    None => None,
                },
            }),
    {
        let data = match data {
            Some(value) => Some(value.to_arma()),
            None => None,
        };
        CallbackEntry { name: String::from_str(name), function: String::from_str(function), data }
    }
}

/// The field of an entry that cannot be handed over as a terminated string.
#[derive(Clone, Copy, Debug, PartialEq, Eq, Structural)]
pub enum MalformedField {
    /// The name of the event holds a terminator.
    Name,
    /// The name of the function holds a terminator.
    Function,
    /// The data holds a terminator.
    Data,
}

/// The text that is delivered for the data of an entry: nothing where there is
/// no data, the raw content of a text, the canonical text of any other value.
pub open spec fn payload_text(data: Option<ValueView>) -> Seq<char> {
    match data {
        Some(v) => output_text(v),
        None => Seq::empty(),
    }
}

/// Whether `bytes` is a terminated string: it ends with the one terminator it holds.
pub open spec fn is_terminated(bytes: Seq<u8>) -> bool {
    &&& bytes.len() >= 1
    &&& bytes.last() == 0
    &&& forall|i: int| 0 <= i < bytes.len() - 1 ==> bytes[i] != 0
}

/// The terminated string of a text: its bytes and one terminator. A text that
/// holds a terminator itself has none.
pub open spec fn terminated(text: Seq<char>) -> Option<Seq<u8>> {
    let bytes = encode_utf8(text);
    if exists|i: int| 0 <= i < bytes.len() && bytes[i] == 0 {
        None
    } else {
        Some(bytes.push(0))
    }
}

/// The terminated string of `s`, if it has one.
pub fn terminate(s: &str) -> (out: Option<Vec<u8>>)
    ensures
        out matches Some(v) ==> terminated(s@) == Some(v@) && is_terminated(v@),
        out is None ==> terminated(s@) is None,
{
    let bytes = s.as_bytes();
    let mut out: Vec<u8> = Vec::new();
    let mut i: usize = 0;
    while i < bytes.len()
        invariant
            i <= bytes.len(),
            bytes@ == encode_utf8(s@),
            out@ == bytes@.take(i as int),
            forall|j: int| 0 <= j < i ==> bytes@[j] != 0,
        decreases bytes.len() - i,
    {
        if bytes[i] == 0 {
            return None;
        }
        out.push(bytes[i]);
        assert(bytes@.take(i + 1) =~= bytes@.take(i as int).push(bytes@[i as int]));
        i = i + 1;
    }
    out.push(0);
    assert(bytes@.take(bytes.len() as int) =~= bytes@);
    Some(out)
}

/// An entry made ready for the callback: three terminated strings.
#[derive(Debug, PartialEq, Eq)]
pub struct Delivery {
    name: Vec<u8>,
    function: Vec<u8>,
    data: Vec<u8>,
}

/// What a [`Delivery`] holds, as mathematics.
pub struct DeliveryView {
    pub name: Seq<u8>,
    pub function: Seq<u8>,
    pub data: Seq<u8>,
}

impl View for Delivery {
    type V = DeliveryView;

    closed spec fn view(&self) -> DeliveryView {
        DeliveryView { name: self.name@, function: self.function@, data: self.data@ }
    }
}

impl Delivery {
    #[verifier::type_invariant]
    closed spec fn terminated_fields(&self) -> bool {
        is_terminated(self.name@) && is_terminated(self.function@) && is_terminated(self.data@)
    }

    /// The name of the event, terminated.
    pub fn name(&self) -> (bytes: &Vec<u8>)
        ensures
            bytes@ == self@.name,
            is_terminated(bytes@),
    {
        proof {
            use_type_invariant(self);
        }
        &self.name
    }

    /// The name of the function, terminated.
    pub fn function(&self) -> (bytes: &Vec<u8>)
        ensures
            bytes@ == self@.function,
            is_terminated(bytes@),
    {
        proof {
            use_type_invariant(self);
        }
        &self.function
    }

    /// The data, terminated.
    pub fn data(&self) -> (bytes: &Vec<u8>)
        ensures
            bytes@ == self@.data,
            is_terminated(bytes@),
    {
        proof {
            use_type_invariant(self);
        }
        &self.data
    }
}

/// What is delivered for an entry: its name, its function and the text of its
/// data, each as a terminated string. The first of the three that has none, in
/// this order, is the field that makes the entry malformed.
pub open spec fn prepared(entry: CallbackEntryView) -> Result<DeliveryView, MalformedField> {
    match terminated(entry.name) {
        None => Err(MalformedField::Name),
        Some(name) => match terminated(entry.function) {
            None => Err(MalformedField::Function),
            Some(function) => match terminated(payload_text(entry.data)) {
                None => Err(MalformedField::Data),
                Some(data) => Ok(DeliveryView { name, function, data }),
            },
        },
    }
}

/// Makes an entry ready for the callback, or says which field is malformed.
pub fn prepare(entry: CallbackEntry) -> (outcome: Result<Delivery, MalformedField>)
    ensures
        outcome matches Ok(delivery) ==> prepared(entry@) == Ok::<DeliveryView, MalformedField>(
            delivery@,
        ),
        outcome matches Err(field) ==> prepared(entry@) == Err::<DeliveryView, MalformedField>(
            field,
        ),
{
    let name = match terminate(entry.name.as_str()) {
        Some(name) => name,
        None => {
            return Err(MalformedField::Name);
        },
    };
    let function = match terminate(entry.function.as_str()) {
        Some(function) => function,
        None => {
            return Err(MalformedField::Function);
        },
    };
    let text = match entry.data {
        Some(value) => value.into_output(),
        None => String::new(),
    };
    let data = match terminate(text.as_str()) {
        Some(data) => data,
        None => {
            return Err(MalformedField::Data);
        },
    };
    Ok(Delivery { name, function, data })
}

/// Milliseconds that the worker waits before it offers a rejected entry again.
pub const RETRY_DELAY_MILLIS: u64 = 1;

/// Where the worker stands.
#[derive(Debug, PartialEq, Eq)]
pub enum WorkerState {
    /// No entry in hand; the queue is being polled.
    Idle,
    /// An entry is being offered to the callback.
    Delivering(Delivery),
    /// The callback rejected the entry; the worker waits to offer it again.
    Retrying(Delivery),
}

/// What a [`WorkerState`] holds, as mathematics.
pub enum WorkerStateView {
    Idle,
    Delivering(DeliveryView),
    Retrying(DeliveryView),
}

impl View for WorkerState {
    type V = WorkerStateView;

    open spec fn view(&self) -> WorkerStateView {
        match self {
            WorkerState::Idle => WorkerStateView::Idle,
            WorkerState::Delivering(d) => WorkerStateView::Delivering(d@),
            WorkerState::Retrying(d) => WorkerStateView::Retrying(d@),
        }
    }
}

impl WorkerState {
    /// The delivery in hand, if there is one.
    pub fn delivery(&self) -> (delivery: Option<&Delivery>)
        ensures
            match self@ {
                WorkerStateView::Idle => delivery is None,
                WorkerStateView::Delivering(d) => delivery matches Some(held) && held@ == d,
                WorkerStateView::Retrying(d) => delivery matches Some(held) && held@ == d,
            },
    {
        match self {
            WorkerState::Idle => None,
            WorkerState::Delivering(d) => Some(d),
            WorkerState::Retrying(d) => Some(d),
        }
    }
}

/// What came of the worker's last action.
#[derive(Debug, PartialEq, Eq)]
pub enum WorkerEvent {
    /// The queue was polled and gave this.
    Polled(Option<CallbackEntry>),
    /// The callback was called and answered this: accepted if not negative.
    Answered(libc::c_int),
    /// The retry delay has passed.
    Waited,
}

/// What a [`WorkerEvent`] holds, as mathematics.
pub enum WorkerEventView {
    Polled(Option<CallbackEntryView>),
    Answered(int),
    Waited,
}

impl View for WorkerEvent {
    type V = WorkerEventView;

    open spec fn view(&self) -> WorkerEventView {
        match self {
            WorkerEvent::Polled(polled) => WorkerEventView::Polled(
                match polled {
                    Some(entry) => Some(entry@),
                    None => None,
                },
            ),
            WorkerEvent::Answered(signal) => WorkerEventView::Answered(*signal as int),
            WorkerEvent::Waited => WorkerEventView::Waited,
        }
    }
}

/// What the worker does next.
#[derive(Clone, Copy, Debug, PartialEq, Eq, Structural)]
pub enum WorkerAction {
    /// Poll the queue.
    Poll,
    /// Call the callback with the delivery in hand.
    Deliver,
    /// Wait for [`RETRY_DELAY_MILLIS`].
    Wait,
}

/// The outcome of one step of the worker.
pub struct Transition {
    /// Where the worker stands now.
    pub state: WorkerState,
    /// What it does next.
    pub action: WorkerAction,
    /// The field for which the polled entry was dropped, if it was.
    pub dropped: Option<MalformedField>,
}

/// What a [`Transition`] holds, as mathematics.
pub struct TransitionView {
    pub state: WorkerStateView,
    pub action: WorkerAction,
    pub dropped: Option<MalformedField>,
}

impl View for Transition {
    type V = TransitionView;

    open spec fn view(&self) -> TransitionView {
        TransitionView { state: self.state@, action: self.action, dropped: self.dropped }
    }
}

/// The worker standing in `state` with `action` pending and nothing dropped.
pub open spec fn stays(state: WorkerStateView, action: WorkerAction) -> TransitionView {
    TransitionView { state, action, dropped: None }
}

/// One step of the worker.
///
/// - Idle, and the poll found nothing: idle, poll again.
/// - Idle, and the poll found an entry: with no callback registered the entry
///   is discarded; a malformed entry is dropped; in both cases the worker
///   stays idle and polls again. Otherwise the entry is delivered.
/// - Delivering, and the callback answered: accepted, the worker goes idle and
///   polls for the next entry; rejected, it keeps the entry and waits.
/// - Retrying, and the delay has passed: the same entry is delivered again.
/// - An event that does not answer the pending action changes nothing: the
///   pending action is asked for again.
pub open spec fn step_spec(
    state: WorkerStateView,
    event: WorkerEventView,
    registered: bool,
) -> TransitionView {
    match state {
        WorkerStateView::Idle => match event {
            WorkerEventView::Polled(Some(entry)) => if !registered {
                stays(WorkerStateView::Idle, WorkerAction::Poll)
            } else {
                match prepared(entry) {
                    Ok(delivery) => stays(
                        WorkerStateView::Delivering(delivery),
                        WorkerAction::Deliver,
                    ),
                    Err(field) => TransitionView {
                        state: WorkerStateView::Idle,
                        action: WorkerAction::Poll,
                        dropped: Some(field),
                    },
                }
            },
            _ => stays(WorkerStateView::Idle, WorkerAction::Poll),
        },
        WorkerStateView::Delivering(delivery) => match event {
            WorkerEventView::Answered(signal) => if signal >= 0 {
                stays(WorkerStateView::Idle, WorkerAction::Poll)
            } else {
                stays(WorkerStateView::Retrying(delivery), WorkerAction::Wait)
            },
            _ => stays(state, WorkerAction::Deliver),
        },
        WorkerStateView::Retrying(delivery) => match event {
            WorkerEventView::Waited => stays(
                WorkerStateView::Delivering(delivery),
                WorkerAction::Deliver,
            ),
            _ => stays(state, WorkerAction::Wait),
        },
    }
}

/// The state in which the worker starts; its first action is to poll.
pub fn start() -> (state: WorkerState)
    ensures
        state@ == WorkerStateView::Idle,
{
    WorkerState::Idle
}

/// Decides what the worker does after `event`, standing in `state`.
/// `registered` says whether a callback has been registered.
pub fn step(state: WorkerState, event: WorkerEvent, registered: bool) -> (next: Transition)
    ensures
        next@ == step_spec(state@, event@, registered),
{
    match state {
        WorkerState::Idle => match event {
            WorkerEvent::Polled(Some(entry)) => {
                if !registered {
                    Transition { state: WorkerState::Idle, action: WorkerAction::Poll, dropped: None }
                } else {
                    match prepare(entry) {
                        Ok(delivery) => Transition {
                            state: WorkerState::Delivering(delivery),
                            action: WorkerAction::Deliver,
                            dropped: None,
                        },
                        Err(field) => Transition {
                            state: WorkerState::Idle,
                            action: WorkerAction::Poll,
                            dropped: Some(field),
                        },
                    }
                }
            },
            _ => Transition { state: WorkerState::Idle, action: WorkerAction::Poll, dropped: None },
        },
        WorkerState::Delivering(delivery) => match event {
            WorkerEvent::Answered(signal) => {
                if signal >= 0 {
                    Transition { state: WorkerState::Idle, action: WorkerAction::Poll, dropped: None }
                } else {
                    Transition {
                        state: WorkerState::Retrying(delivery),
                        action: WorkerAction::Wait,
                        dropped: None,
                    }
                }
            },
            _ => Transition {
                state: WorkerState::Delivering(delivery),
                action: WorkerAction::Deliver,
                dropped: None,
            },
        },
        WorkerState::Retrying(delivery) => match event {
            WorkerEvent::Waited => Transition {
                state: WorkerState::Delivering(delivery),
                action: WorkerAction::Deliver,
                dropped: None,
            },
            _ => Transition {
                state: WorkerState::Retrying(delivery),
                action: WorkerAction::Wait,
                dropped: None,
            },
        },
    }
}

/// The state of a worker that started idle and then saw `events`.
pub open spec fn state_after(
    start: WorkerStateView,
    events: Seq<WorkerEventView>,
    registered: bool,
) -> WorkerStateView
    decreases events.len(),
{
    if events.len() == 0 {
        start
    } else {
        step_spec(state_after(start, events.drop_last(), registered), events.last(), registered).state
    }
}

/// Whether the worker holds `delivery`, offering it or waiting to offer it again.
pub open spec fn holds(state: WorkerStateView, delivery: DeliveryView) -> bool {
    state == WorkerStateView::Delivering(delivery) || state == WorkerStateView::Retrying(delivery)
}

/// Whether no event in `events` is an acceptance.
pub open spec fn never_accepted(events: Seq<WorkerEventView>) -> bool {
    forall|i: int|
        0 <= i < events.len() ==> (#[trigger] events[i] matches WorkerEventView::Answered(signal)
            ==> signal < 0)
}

/// A callback that never accepts starves the queue: a worker that holds a
/// delivery keeps holding the same one, whatever else happens, and is never
/// told to poll for the next entry.
pub proof fn lemma_rejection_starves(
    start: WorkerStateView,
    delivery: DeliveryView,
    events: Seq<WorkerEventView>,
    registered: bool,
)
    requires
        holds(start, delivery),
        never_accepted(events),
    ensures
        holds(state_after(start, events, registered), delivery),
        forall|k: int|
            0 <= k < events.len() ==> step_spec(
                state_after(start, #[trigger] events.take(k), registered),
                events[k],
                registered,
            ).action != WorkerAction::Poll,
    decreases events.len(),
{
    if events.len() > 0 {
        let earlier = events.drop_last();
        assert forall|i: int| 0 <= i < earlier.len() implies (#[trigger] earlier[i] matches WorkerEventView::Answered(
            signal,
        ) ==> signal < 0) by {
            assert(earlier[i] == events[i]);
        }
        lemma_rejection_starves(start, delivery, earlier, registered);
        assert forall|k: int| 0 <= k < events.len() implies step_spec(
            state_after(start, #[trigger] events.take(k), registered),
            events[k],
            registered,
        ).action != WorkerAction::Poll by {
            if k < earlier.len() {
                assert(earlier.take(k) =~= events.take(k));
                assert(earlier[k] == events[k]);
            } else {
                assert(events.take(k) =~= earlier);
                assert(events[k] == events.last());
            }
        }
    }
}

/// What a worker sees of a callback that rejects again and again: for each
/// signal in `signals` the answer, and then that the delay has passed.
pub open spec fn rejections(signals: Seq<int>) -> Seq<WorkerEventView>
    decreases signals.len(),
{
    if signals.len() == 0 {
        Seq::empty()
    } else {
        rejections(signals.drop_last()).push(WorkerEventView::Answered(signals.last())).push(
            WorkerEventView::Waited,
        )
    }
}

/// How often a worker that started in `start` and then saw `events` was told
/// to call the callback.
pub open spec fn deliveries_after(
    start: WorkerStateView,
    events: Seq<WorkerEventView>,
    registered: bool,
) -> nat
    decreases events.len(),
{
    if events.len() == 0 {
        0
    } else {
        let earlier = events.drop_last();
        let told = step_spec(state_after(start, earlier, registered), events.last(), registered);
        deliveries_after(start, earlier, registered) + if told.action == WorkerAction::Deliver {
            1nat
        } else {
            0nat
        }
    }
}

/// Retries have no bound: however often the callback rejects, the worker
/// offers the same delivery once more after each rejection, and stands ready
/// to offer it again.
pub proof fn lemma_retries_without_bound(
    delivery: DeliveryView,
    signals: Seq<int>,
    registered: bool,
)
    requires
        forall|i: int| 0 <= i < signals.len() ==> signals[i] < 0,
    ensures
        state_after(WorkerStateView::Delivering(delivery), rejections(signals), registered)
            == WorkerStateView::Delivering(delivery),
        deliveries_after(WorkerStateView::Delivering(delivery), rejections(signals), registered)
            == signals.len(),
    decreases signals.len(),
{
    let start = WorkerStateView::Delivering(delivery);
    if signals.len() > 0 {
        lemma_retries_without_bound(delivery, signals.drop_last(), registered);
        let before = rejections(signals.drop_last());
        let answered = before.push(WorkerEventView::Answered(signals.last()));
        let events = rejections(signals);
        assert(events == answered.push(WorkerEventView::Waited));
        assert(events.drop_last() =~= answered);
        assert(events.last() == WorkerEventView::Waited);
        assert(answered.drop_last() =~= before);
        assert(answered.last() == WorkerEventView::Answered(signals.last()));
        assert(state_after(start, answered, registered) == WorkerStateView::Retrying(delivery));
        assert(deliveries_after(start, answered, registered) == deliveries_after(
            start,
            before,
            registered,
        ));
    }
}

/// What a worker sees where every poll finds the next of `entries` and the
/// callback answers it with the next of `signals`.
pub open spec fn deliveries_seen(
    entries: Seq<CallbackEntryView>,
    signals: Seq<int>,
) -> Seq<WorkerEventView>
    decreases entries.len(),
{
    if entries.len() == 0 || signals.len() != entries.len() {
        Seq::empty()
    } else {
        deliveries_seen(entries.drop_last(), signals.drop_last()).push(
            WorkerEventView::Polled(Some(entries.last())),
        ).push(WorkerEventView::Answered(signals.last()))
    }
}

/// The deliveries that a worker which started in `start` and then saw
/// `events` was told to offer to the callback, in the order in which it was
/// told.
pub open spec fn offered(
    start: WorkerStateView,
    events: Seq<WorkerEventView>,
    registered: bool,
) -> Seq<DeliveryView>
    decreases events.len(),
{
    if events.len() == 0 {
        Seq::empty()
    } else {
        let earlier = events.drop_last();
        let told = step_spec(state_after(start, earlier, registered), events.last(), registered);
        match told.state {
            WorkerStateView::Delivering(delivery) => if told.action == WorkerAction::Deliver {
                offered(start, earlier, registered).push(delivery)
            } else {
                offered(start, earlier, registered)
            },
            _ => offered(start, earlier, registered),
        }
    }
}

/// What is delivered for each of `entries`, in their order.
pub open spec fn deliveries_of(entries: Seq<CallbackEntryView>) -> Seq<DeliveryView> {
    Seq::new(entries.len(), |i: int| prepared(entries[i])->Ok_0)
}

/// Delivery keeps the order of the queue: where a callback is registered and
/// accepts every offer, and the polls find `entries` one after the other, none
/// of them malformed, the worker offers exactly what is delivered for each,
/// once and in that order, and is idle again afterwards.
pub proof fn lemma_delivers_in_order(entries: Seq<CallbackEntryView>, signals: Seq<int>)
    requires
        signals.len() == entries.len(),
        forall|i: int| 0 <= i < entries.len() ==> prepared(#[trigger] entries[i]) is Ok,
        forall|i: int| 0 <= i < signals.len() ==> signals[i] >= 0,
    ensures
        state_after(WorkerStateView::Idle, deliveries_seen(entries, signals), true)
            == WorkerStateView::Idle,
        offered(WorkerStateView::Idle, deliveries_seen(entries, signals), true) == deliveries_of(
            entries,
        ),
    decreases entries.len(),
{
    let start = WorkerStateView::Idle;
    if entries.len() == 0 {
        assert(offered(start, deliveries_seen(entries, signals), true) =~= deliveries_of(entries));
    } else {
        let fewer = entries.drop_last();
        lemma_delivers_in_order(fewer, signals.drop_last());
        let before = deliveries_seen(fewer, signals.drop_last());
        let polled = before.push(WorkerEventView::Polled(Some(entries.last())));
        let events = deliveries_seen(entries, signals);
        assert(events == polled.push(WorkerEventView::Answered(signals.last())));
        assert(events.drop_last() =~= polled);
        assert(events.last() == WorkerEventView::Answered(signals.last()));
        assert(polled.drop_last() =~= before);
        assert(polled.last() == WorkerEventView::Polled(Some(entries.last())));
        assert(prepared(entries[entries.len() - 1]) is Ok);
        let delivery = prepared(entries.last())->Ok_0;
        assert(state_after(start, polled, true) == WorkerStateView::Delivering(delivery));
        assert(offered(start, polled, true) == offered(start, before, true).push(delivery));
        assert(offered(start, events, true) == offered(start, polled, true));
        assert(deliveries_of(fewer).push(delivery) =~= deliveries_of(entries));
    }
}

/// With no callback registered the queue drains: whatever the polls find, an
/// idle worker stays idle, drops nothing as malformed, never waits to retry
/// and is always told to poll again.
pub proof fn lemma_unregistered_drains(events: Seq<WorkerEventView>)
    ensures
        state_after(WorkerStateView::Idle, events, false) == WorkerStateView::Idle,
        forall|k: int|
            0 <= k < events.len() ==> step_spec(
                state_after(WorkerStateView::Idle, #[trigger] events.take(k), false),
                events[k],
                false,
            ) == stays(WorkerStateView::Idle, WorkerAction::Poll),
    decreases events.len(),
{
    if events.len() > 0 {
        let earlier = events.drop_last();
        lemma_unregistered_drains(earlier);
        assert forall|k: int| 0 <= k < events.len() implies step_spec(
            state_after(WorkerStateView::Idle, #[trigger] events.take(k), false),
            events[k],
            false,
        ) == stays(WorkerStateView::Idle, WorkerAction::Poll) by {
            if k < earlier.len() {
                assert(earlier.take(k) =~= events.take(k));
                assert(earlier[k] == events[k]);
            } else {
                assert(events.take(k) =~= earlier);
            }
        }
    }
}

} // verus!
