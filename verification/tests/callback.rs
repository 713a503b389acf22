use arma_rs::callback::{
    prepare, start, step, terminate, CallbackEntry, MalformedField, WorkerAction, WorkerEvent,
    WorkerState, RETRY_DELAY_MILLIS,
};
use arma_rs::queue::{CallbackQueue, OwnedQueue};
use arma_rs::value::{Number, Value};

fn entry(name: &str, function: &str, data: Option<Value>) -> CallbackEntry {
    CallbackEntry { name: name.to_string(), function: function.to_string(), data }
}

fn parts(state: &WorkerState) -> Option<(Vec<u8>, Vec<u8>, Vec<u8>)> {
    state.delivery().map(|d| (d.name().clone(), d.function().clone(), d.data().clone()))
}

#[test]
fn terminate_appends_one_terminator() {
    assert_eq!(terminate("abc"), Some(b"abc\0".to_vec()));
    assert_eq!(terminate(""), Some(b"\0".to_vec()));
    assert_eq!(terminate("a\0b"), None);
    assert_eq!(terminate("\0"), None);
    assert_eq!(terminate("ä"), Some(vec![0xc3, 0xa4, 0]));
}

#[test]
fn prepare_collapses_data() {
    let d = prepare(entry("n", "f", Some(Value::String("raw \"text\"".to_string())))).ok().unwrap();
    assert_eq!(d.name(), b"n\0");
    assert_eq!(d.function(), b"f\0");
    assert_eq!(d.data(), b"raw \"text\"\0");

    let d = prepare(entry("n", "f", Some(Value::Number(Number::from_i64(12))))).ok().unwrap();
    assert_eq!(d.data(), b"12\0");

    let list = Value::Array(vec![Value::String("a".to_string()), Value::Boolean(true)]);
    let d = prepare(entry("n", "f", Some(list))).ok().unwrap();
    assert_eq!(d.data(), b"[\"a\",true]\0");

    let d = prepare(entry("n", "f", None)).ok().unwrap();
    assert_eq!(d.data(), b"\0");
}

#[test]
fn prepare_names_the_first_malformed_field() {
    assert_eq!(prepare(entry("n\0", "f", None)).err(), Some(MalformedField::Name));
    assert_eq!(prepare(entry("n", "\0f", None)).err(), Some(MalformedField::Function));
    let data = Some(Value::String("da\0ta".to_string()));
    assert_eq!(prepare(entry("n", "f", data)).err(), Some(MalformedField::Data));
    let data = Some(Value::String("da\0ta".to_string()));
    assert_eq!(prepare(entry("n\0", "f\0", data)).err(), Some(MalformedField::Name));
    let data = Some(Value::Array(vec![Value::String("\0".to_string())]));
    assert_eq!(prepare(entry("n", "f\0", data)).err(), Some(MalformedField::Function));
}

#[test]
fn owned_queue_is_first_in_first_out() {
    let mut queue = OwnedQueue::new();
    assert!(queue.pop_mut().is_none());
    queue.push_mut(entry("a", "1", None));
    queue.push_mut(entry("b", "2", None));
    assert_eq!(queue.pop_mut().unwrap().name, "a");
    queue.push_mut(entry("c", "3", None));
    assert_eq!(queue.pop_mut().unwrap().name, "b");
    assert_eq!(queue.pop_mut().unwrap().name, "c");
    assert!(queue.pop_mut().is_none());
    assert!(queue.pop_mut().is_none());
}

#[test]
fn owned_queue_keeps_many_entries_in_order() {
    let mut queue = OwnedQueue::new();
    for i in 0..200 {
        queue.push_mut(entry(&i.to_string(), "f", None));
    }
    for i in 0..200 {
        assert_eq!(queue.pop_mut().unwrap().name, i.to_string());
    }
    assert!(queue.pop_mut().is_none());
}

#[test]
fn shared_queue_hands_out_what_was_put_in() {
    let queue = OwnedQueue::new().share();
    let other = queue.clone();
    queue.push(entry("a", "1", None));
    other.push(entry("b", "2", Some(Value::Null)));
    let first = other.pop().unwrap();
    assert_eq!((first.name.as_str(), first.function.as_str()), ("a", "1"));
    assert!(first.data.is_none());
    let second = queue.pop().unwrap();
    assert_eq!(second.name, "b");
    assert_eq!(second.data.unwrap().to_string(), "null");
    assert!(queue.pop().is_none());
    assert!(other.pop().is_none());
}

#[test]
fn queue_shared_after_use_keeps_its_entries() {
    let mut owned = OwnedQueue::new();
    owned.push_mut(entry("early", "f", None));
    let queue = owned.share();
    queue.push(entry("late", "f", None));
    assert_eq!(queue.pop().unwrap().name, "early");
    assert_eq!(queue.pop().unwrap().name, "late");
    assert!(CallbackQueue::new().pop().is_none());
}

#[test]
fn interleaved_producers_keep_their_own_order() {
    let queue = CallbackQueue::new();
    let producers: Vec<CallbackQueue> = (0..4).map(|_| queue.clone()).collect();
    for i in 0..50 {
        for (p, handle) in producers.iter().enumerate() {
            if (i + p) % 3 != 0 {
                handle.push(CallbackEntry {
                    name: p.to_string(),
                    function: i.to_string(),
                    data: None,
                });
            }
        }
    }
    let mut next = [0usize; 4];
    let mut seen = 0;
    while let Some(entry) = queue.pop() {
        let p: usize = entry.name.parse().unwrap();
        let i: usize = entry.function.parse().unwrap();
        assert!(i >= next[p]);
        next[p] = i + 1;
        seen += 1;
    }
    assert_eq!(seen, 133);
}

#[test]
fn worker_delivers_a_polled_entry() {
    assert_eq!(RETRY_DELAY_MILLIS, 1);
    let state = start();
    assert!(state.delivery().is_none());
    let next = step(state, WorkerEvent::Polled(None), true);
    assert!(matches!(next.state, WorkerState::Idle));
    assert_eq!(next.action, WorkerAction::Poll);
    assert_eq!(next.dropped, None);

    let polled = WorkerEvent::Polled(Some(entry("n", "f", Some(Value::Boolean(false)))));
    let next = step(next.state, polled, true);
    assert!(matches!(next.state, WorkerState::Delivering(_)));
    assert_eq!(next.action, WorkerAction::Deliver);
    assert_eq!(next.dropped, None);
    assert_eq!(
        parts(&next.state),
        Some((b"n\0".to_vec(), b"f\0".to_vec(), b"false\0".to_vec()))
    );

    let next = step(next.state, WorkerEvent::Answered(0), true);
    assert!(matches!(next.state, WorkerState::Idle));
    assert_eq!(next.action, WorkerAction::Poll);
}

#[test]
fn worker_retries_a_rejected_entry_without_end() {
    let polled = WorkerEvent::Polled(Some(entry("n", "f", None)));
    let mut next = step(start(), polled, true);
    let held = parts(&next.state);
    assert!(held.is_some());
    for round in 0..1000 {
        next = step(next.state, WorkerEvent::Answered(-1 - round), true);
        assert!(matches!(next.state, WorkerState::Retrying(_)));
        assert_eq!(next.action, WorkerAction::Wait);
        assert_eq!(parts(&next.state), held);
        next = step(next.state, WorkerEvent::Waited, true);
        assert!(matches!(next.state, WorkerState::Delivering(_)));
        assert_eq!(next.action, WorkerAction::Deliver);
        assert_eq!(parts(&next.state), held);
    }
    next = step(next.state, WorkerEvent::Answered(1), true);
    assert!(matches!(next.state, WorkerState::Idle));
    assert_eq!(next.action, WorkerAction::Poll);
}

#[test]
fn worker_accepts_any_answer_that_is_not_negative() {
    for (signal, accepted) in [(0, true), (1, true), (libc::c_int::MAX, true), (-1, false), (libc::c_int::MIN, false)] {
        let delivering = step(start(), WorkerEvent::Polled(Some(entry("n", "f", None))), true);
        let next = step(delivering.state, WorkerEvent::Answered(signal), true);
        assert_eq!(matches!(next.state, WorkerState::Idle), accepted);
        assert_eq!(next.action == WorkerAction::Poll, accepted);
        assert_eq!(matches!(next.state, WorkerState::Retrying(_)), !accepted);
    }
}

#[test]
fn worker_without_callback_discards() {
    let mut state = start();
    for i in 0..10 {
        let data = Some(Value::String("with\0terminator".to_string()));
        let next = step(state, WorkerEvent::Polled(Some(entry(&i.to_string(), "f\0", data))), false);
        assert!(matches!(next.state, WorkerState::Idle));
        assert_eq!(next.action, WorkerAction::Poll);
        assert_eq!(next.dropped, None);
        state = next.state;
    }
    let next = step(state, WorkerEvent::Polled(None), false);
    assert!(matches!(next.state, WorkerState::Idle));
    assert_eq!(next.action, WorkerAction::Poll);
}

#[test]
fn worker_drops_a_malformed_entry_and_goes_on() {
    let next = step(start(), WorkerEvent::Polled(Some(entry("n", "f\0", None))), true);
    assert!(matches!(next.state, WorkerState::Idle));
    assert_eq!(next.action, WorkerAction::Poll);
    assert_eq!(next.dropped, Some(MalformedField::Function));
    let next = step(next.state, WorkerEvent::Polled(Some(entry("n", "f", None))), true);
    assert!(matches!(next.state, WorkerState::Delivering(_)));
    assert_eq!(next.dropped, None);
}

#[test]
fn worker_ignores_an_event_that_answers_nothing() {
    let next = step(start(), WorkerEvent::Answered(0), true);
    assert!(matches!(next.state, WorkerState::Idle));
    assert_eq!(next.action, WorkerAction::Poll);
    let next = step(next.state, WorkerEvent::Waited, true);
    assert!(matches!(next.state, WorkerState::Idle));
    assert_eq!(next.action, WorkerAction::Poll);

    let delivering = step(start(), WorkerEvent::Polled(Some(entry("n", "f", None))), true);
    let held = parts(&delivering.state);
    let next = step(delivering.state, WorkerEvent::Polled(Some(entry("other", "f", None))), true);
    assert!(matches!(next.state, WorkerState::Delivering(_)));
    assert_eq!(next.action, WorkerAction::Deliver);
    assert_eq!(parts(&next.state), held);
    let next = step(next.state, WorkerEvent::Waited, true);
    assert!(matches!(next.state, WorkerState::Delivering(_)));

    let retrying = step(next.state, WorkerEvent::Answered(-1), true);
    let next = step(retrying.state, WorkerEvent::Answered(0), true);
    assert!(matches!(next.state, WorkerState::Retrying(_)));
    assert_eq!(next.action, WorkerAction::Wait);
    let next = step(next.state, WorkerEvent::Polled(None), true);
    assert!(matches!(next.state, WorkerState::Retrying(_)));
    assert_eq!(parts(&next.state), held);
}

#[test]
fn second_entry_waits_while_the_first_is_rejected() {
    let queue = CallbackQueue::new();
    queue.push(entry("first", "f", None));
    queue.push(entry("second", "f", None));
    let mut delivered: Vec<Vec<u8>> = Vec::new();
    let mut next = step(start(), WorkerEvent::Polled(queue.pop()), true);
    for _ in 0..50 {
        let event = match next.action {
            WorkerAction::Poll => WorkerEvent::Polled(queue.pop()),
            WorkerAction::Deliver => {
                delivered.push(next.state.delivery().unwrap().name().clone());
                WorkerEvent::Answered(-1)
            }
            WorkerAction::Wait => WorkerEvent::Waited,
        };
        next = step(next.state, event, true);
    }
    assert!(!delivered.is_empty());
    assert!(delivered.iter().all(|name| name == b"first\0"));
    assert_eq!(queue.pop().unwrap().name, "second");
}

#[test]
fn entries_are_delivered_in_order_when_accepted() {
    let queue = CallbackQueue::new();
    for name in ["a", "b\0", "c", "d"] {
        queue.push(entry(name, "f", None));
    }
    let mut delivered: Vec<Vec<u8>> = Vec::new();
    let mut dropped = Vec::new();
    let mut rejected_once = false;
    let mut next = step(start(), WorkerEvent::Polled(queue.pop()), true);
    for _ in 0..20 {
        if let Some(field) = next.dropped {
            dropped.push(field);
        }
        let event = match next.action {
            WorkerAction::Poll => WorkerEvent::Polled(queue.pop()),
            WorkerAction::Deliver => {
                let name = next.state.delivery().unwrap().name().clone();
                if name == b"c\0" && !rejected_once {
                    rejected_once = true;
                    WorkerEvent::Answered(-1)
                } else {
                    delivered.push(name);
                    WorkerEvent::Answered(0)
                }
            }
            WorkerAction::Wait => WorkerEvent::Waited,
        };
        next = step(next.state, event, true);
    }
    assert_eq!(delivered, vec![b"a\0".to_vec(), b"c\0".to_vec(), b"d\0".to_vec()]);
    assert_eq!(dropped, vec![MalformedField::Name]);
}

#[test]
fn entries_and_states_compare_by_content() {
    let queue = CallbackQueue::new();
    queue.push(entry("n", "f", Some(Value::Array(vec![Value::Null]))));
    assert_eq!(queue.pop(), Some(entry("n", "f", Some(Value::Array(vec![Value::Null])))));
    assert_eq!(queue.pop(), None);
    assert_eq!(start(), WorkerState::Idle);
    let one = step(start(), WorkerEvent::Polled(Some(entry("n", "f", None))), true);
    let other = step(start(), WorkerEvent::Polled(Some(entry("n", "f", None))), true);
    assert_eq!(one.state, other.state);
    assert_ne!(one.state, WorkerState::Idle);
}

#[test]
fn entry_is_made_of_name_function_and_encoded_data() {
    let made = CallbackEntry::new("event", "function", Some(vec![1u8, 2]));
    assert_eq!(made.name, "event");
    assert_eq!(made.function, "function");
    assert_eq!(made.data.unwrap().to_string(), "[1,2]");
    let made = CallbackEntry::new::<bool>("a", "b", None);
    assert_eq!(made, entry("a", "b", None));
    let made = CallbackEntry::new("a", "b", Some("text".to_string()));
    assert_eq!(made, entry("a", "b", Some(Value::String("text".to_string()))));
}
