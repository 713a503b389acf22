use std::cell::Cell;
use std::rc::Rc;

use arma_rs::queue::CallbackQueue;
use arma_rs::command::{check_count, decode_argument, respond, take, FromArguments};
use arma_rs::command::arguments_to_read;
use arma_rs::{fn_handler, CommandExecutor, CommandFactory, Context};

fn strings(items: &[&str]) -> Vec<String> {
    items.iter().map(|s| s.to_string()).collect()
}

fn context() -> Context {
    Context::new(CallbackQueue::new())
}

fn chars(text: &[u8]) -> Vec<libc::c_char> {
    text.iter().map(|c| *c as libc::c_char).collect()
}

#[test]
fn adds_two_numbers() {
    let add = |a: i32, b: i32| a + b;
    let args = strings(&["2", "40"]);
    let mut buf = chars(b"zzzzzz");
    let status =
        CommandFactory::<(i32, i32), i32>::call(&add, context(), &mut buf, 6, Some(&args), Some(2));
    assert_eq!(status, 0);
    assert_eq!(buf, chars(b"42\0zzz"));
}

#[test]
fn result_text_is_raw_and_arguments_lose_one_pair_of_quotes() {
    let greet = |name: String| format!("hello {}", name);
    let args = strings(&["\"\"world\"\""]);
    let mut buf = chars(b"zzzzzzzzzzzzzzzz");
    let status =
        CommandFactory::<(String,), String>::call(&greet, context(), &mut buf, 16, Some(&args), Some(1));
    assert_eq!(status, 0);
    assert_eq!(buf, chars(b"hello \"world\"\0zz"));
}

#[test]
fn quoted_number_is_decoded() {
    let double = |a: u8| a as u32 * 2;
    let args = strings(&["\"200\""]);
    let mut buf = chars(b"zzzz");
    let status =
        CommandFactory::<(u8,), u32>::call(&double, context(), &mut buf, 4, Some(&args), Some(1));
    assert_eq!(status, 0);
    assert_eq!(buf, chars(b"400\0"));
}

#[test]
fn wrong_count_is_reported_and_buffer_untouched() {
    let calls = Rc::new(Cell::new(0));
    let seen = calls.clone();
    let add = move |a: i32, b: i32| {
        seen.set(seen.get() + 1);
        a + b
    };
    let args = strings(&["1", "2", "3", "4", "5"]);
    let mut buf = chars(b"zzzz");
    let status =
        CommandFactory::<(i32, i32), i32>::call(&add, context(), &mut buf, 4, Some(&args), Some(5));
    assert_eq!(status, 25);
    assert_eq!(buf, chars(b"zzzz"));

    let status = CommandFactory::<(i32, i32), i32>::call(&add, context(), &mut buf, 4, None, None);
    assert_eq!(status, 20);
    let status =
        CommandFactory::<(i32, i32), i32>::call(&add, context(), &mut buf, 4, None, Some(12));
    assert_eq!(status, 212);
    let status =
        CommandFactory::<(i32, i32), i32>::call(&add, context(), &mut buf, 4, Some(&args), Some(1));
    assert_eq!(status, 21);
    assert_eq!(buf, chars(b"zzzz"));
    assert_eq!(calls.get(), 0);
}

#[test]
fn first_undecodable_argument_is_reported() {
    let calls = Rc::new(Cell::new(0));
    let seen = calls.clone();
    let sum = move |a: i32, b: i32, c: i32| {
        seen.set(seen.get() + 1);
        a + b + c
    };
    let mut buf = chars(b"zzzz");
    for (args, expected) in [
        (strings(&["x", "2", "3"]), 30),
        (strings(&["1", "x", "3"]), 31),
        (strings(&["1", "2", "x"]), 32),
        (strings(&["x", "y", "z"]), 30),
        (strings(&["1", "y", "z"]), 31),
    ] {
        let status = CommandFactory::<(i32, i32, i32), i32>::call(
            &sum,
            context(),
            &mut buf,
            4,
            Some(&args),
            Some(3),
        );
        assert_eq!(status, expected);
        assert_eq!(buf, chars(b"zzzz"));
    }
    assert_eq!(calls.get(), 0);
}

#[test]
fn result_that_does_not_fit_is_an_overflow() {
    let echo = |s: String| s;
    let args = strings(&["overflow"]);
    let mut buf = chars(b"zzzz");
    let status =
        CommandFactory::<(String,), String>::call(&echo, context(), &mut buf, 4, Some(&args), Some(1));
    assert_eq!(status, 4);
    assert_eq!(buf, chars(b"zzzz"));

    let args = strings(&["fit"]);
    let status =
        CommandFactory::<(String,), String>::call(&echo, context(), &mut buf, 4, Some(&args), Some(1));
    assert_eq!(status, 0);
    assert_eq!(buf, chars(b"fit\0"));
}

#[test]
fn handler_without_result_leaves_buffer() {
    let calls = Rc::new(Cell::new(0));
    let seen = calls.clone();
    let note = move |a: i32, flag: bool| {
        if flag {
            seen.set(seen.get() + a);
        }
    };
    let args = strings(&["7", "true"]);
    let mut buf = chars(b"zz");
    let status =
        CommandFactory::<(i32, bool), ()>::call(&note, context(), &mut buf, 2, Some(&args), Some(2));
    assert_eq!(status, 0);
    assert_eq!(buf, chars(b"zz"));
    assert_eq!(calls.get(), 7);

    let args = strings(&["7", "yes"]);
    let status =
        CommandFactory::<(i32, bool), ()>::call(&note, context(), &mut buf, 2, Some(&args), Some(2));
    assert_eq!(status, 31);
    assert_eq!(calls.get(), 7);
}

#[test]
fn handler_without_parameters() {
    let version = || "1.2.3".to_string();
    let mut buf = chars(b"zzzzzzz");
    let status = CommandFactory::<(), String>::call(&version, context(), &mut buf, 7, None, None);
    assert_eq!(status, 0);
    assert_eq!(buf, chars(b"1.2.3\0z"));

    let status = CommandFactory::<(), String>::call(&version, context(), &mut buf, 7, None, Some(0));
    assert_eq!(status, 0);

    let args = strings(&["1"]);
    let mut buf = chars(b"zzzzzzz");
    let status =
        CommandFactory::<(), String>::call(&version, context(), &mut buf, 7, Some(&args), Some(1));
    assert_eq!(status, 21);
    assert_eq!(buf, chars(b"zzzzzzz"));

    let calls = Rc::new(Cell::new(0));
    let seen = calls.clone();
    let tick = move || seen.set(seen.get() + 1);
    let status = CommandFactory::<(), ()>::call(&tick, context(), &mut buf, 7, None, None);
    assert_eq!(status, 0);
    assert_eq!(calls.get(), 1);
    assert_eq!(buf, chars(b"zzzzzzz"));
}

#[test]
fn handler_with_context_sees_buffer_size() {
    let capacity = |context: Context| context.buffer_size() as u32;
    let mut buf = chars(b"zzzzzzzz");
    let status = CommandFactory::<(Context,), u32>::call(
        &capacity,
        context().with_buffer_size(8),
        &mut buf,
        8,
        None,
        None,
    );
    assert_eq!(status, 0);
    assert_eq!(buf, chars(b"8\0zzzzzz"));

    let scaled = |context: Context, factor: u32| context.buffer_size() as u32 * factor;
    let args = strings(&["3"]);
    let status = CommandFactory::<(Context, u32), u32>::call(
        &scaled,
        context().with_buffer_size(8),
        &mut buf,
        8,
        Some(&args),
        Some(1),
    );
    assert_eq!(status, 0);
    assert_eq!(buf, chars(b"24\0zzzzz"));
}

#[test]
fn handler_with_context_can_notify() {
    let queue = CallbackQueue::new();
    let notify = |context: Context, text: String| {
        context.callback("event", "function", Some(text));
    };
    let args = strings(&["\"payload\""]);
    let mut buf = chars(b"zz");
    let status = CommandFactory::<(Context, String), ()>::call(
        &notify,
        Context::new(queue.clone()),
        &mut buf,
        2,
        Some(&args),
        Some(1),
    );
    assert_eq!(status, 0);
    assert_eq!(buf, chars(b"zz"));
    let entry = queue.pop().unwrap();
    assert_eq!(entry.name, "event");
    assert_eq!(entry.function, "function");
    assert_eq!(entry.data.unwrap().into_output(), "payload");
    assert!(queue.pop().is_none());
}

#[test]
fn twelve_parameters_in_call_order() {
    let join = |a: String,
                b: String,
                c: String,
                d: String,
                e: String,
                f: String,
                g: String,
                h: String,
                i: String,
                j: String,
                k: String,
                l: String| {
        [a, b, c, d, e, f, g, h, i, j, k, l].concat()
    };
    let args = strings(&["a", "b", "c", "d", "e", "f", "g", "h", "i", "j", "k", "l"]);
    let mut buf = chars(b"zzzzzzzzzzzzzz");
    let status = CommandFactory::<
        (
            String,
            String,
            String,
            String,
            String,
            String,
            String,
            String,
            String,
            String,
            String,
            String,
        ),
        String,
    >::call(&join, context(), &mut buf, 14, Some(&args), Some(12));
    assert_eq!(status, 0);
    assert_eq!(buf, chars(b"abcdefghijkl\0z"));
}

#[test]
fn twelfth_parameter_fails_at_position_eleven() {
    let last = |_a: u8,
                _b: u8,
                _c: u8,
                _d: u8,
                _e: u8,
                _f: u8,
                _g: u8,
                _h: u8,
                _i: u8,
                _j: u8,
                _k: u8,
                l: u8| l;
    let mut args = strings(&["0", "1", "2", "3", "4", "5", "6", "7", "8", "9", "10", "x"]);
    let mut buf = chars(b"zzzz");
    let status = CommandFactory::<(u8, u8, u8, u8, u8, u8, u8, u8, u8, u8, u8, u8), u8>::call(
        &last,
        context(),
        &mut buf,
        4,
        Some(&args),
        Some(12),
    );
    assert_eq!(status, 311);
    assert_eq!(buf, chars(b"zzzz"));
    args[10] = "y".to_string();
    let status = CommandFactory::<(u8, u8, u8, u8, u8, u8, u8, u8, u8, u8, u8, u8), u8>::call(
        &last,
        context(),
        &mut buf,
        4,
        Some(&args),
        Some(12),
    );
    assert_eq!(status, 310);
    args[10] = "10".to_string();
    args[11] = "11".to_string();
    let status = CommandFactory::<(u8, u8, u8, u8, u8, u8, u8, u8, u8, u8, u8, u8), u8>::call(
        &last,
        context(),
        &mut buf,
        4,
        Some(&args),
        Some(12),
    );
    assert_eq!(status, 0);
    assert_eq!(buf, chars(b"11\0z"));
}

#[test]
fn only_the_declared_capacity_is_used() {
    let echo = |s: String| s;
    let args = strings(&["abc"]);
    let mut buf = chars(b"zzzzzzzz");
    let status =
        CommandFactory::<(String,), String>::call(&echo, context(), &mut buf, 3, Some(&args), Some(1));
    assert_eq!(status, 4);
    assert_eq!(buf, chars(b"zzzzzzzz"));
}

#[test]
fn extra_arguments_behind_the_count_are_not_read() {
    let first = |a: i32| a;
    let args = strings(&["1", "not a number"]);
    let mut buf = chars(b"zz");
    let status =
        CommandFactory::<(i32,), i32>::call(&first, context(), &mut buf, 2, Some(&args), Some(1));
    assert_eq!(status, 0);
    assert_eq!(buf, chars(b"1\0"));
}

#[test]
fn registered_handler_behaves_like_the_callable() {
    let handler = fn_handler(|a: i32, b: i32| a * b);
    let args = strings(&["6", "7"]);
    let mut buf = chars(b"zzzz");
    assert_eq!(handler.call(context(), &mut buf, 4, Some(&args), Some(2)), 0);
    assert_eq!(buf, chars(b"42\0z"));
    assert_eq!(handler.call(context(), &mut buf, 4, Some(&args), Some(3)), 23);
    let args = strings(&["6", "seven"]);
    assert_eq!(handler.call(context(), &mut buf, 4, Some(&args), Some(2)), 31);
    assert_eq!(buf, chars(b"42\0z"));
}

#[test]
fn check_count_compares_with_arity() {
    assert_eq!(check_count(3, Some(3)), Ok(()));
    assert_eq!(check_count(0, None), Ok(()));
    assert_eq!(check_count(0, Some(0)), Ok(()));
    assert_eq!(check_count(12, Some(12)), Ok(()));
    assert_eq!(check_count(2, Some(3)), Err(23));
    assert_eq!(check_count(0, Some(3)), Err(23));
    assert_eq!(check_count(1, None), Err(20));
    assert_eq!(check_count(1, Some(0)), Err(20));
    assert_eq!(check_count(12, Some(13)), Err(213));
    assert_eq!(check_count(12, Some(147_483_647)), Err(libc::c_int::MAX));
    assert_eq!(check_count(12, Some(147_483_648)), Err(2));
    assert_eq!(check_count(0, Some(libc::c_int::MAX)), Err(2));
    assert_eq!(check_count(3, Some(-1)), Err(2));
    assert_eq!(check_count(0, Some(libc::c_int::MIN)), Err(2));
}

#[test]
fn decode_argument_reports_position() {
    let argv = strings(&["1", "x", "\"3\"", "\"\"y\"\""]);
    assert_eq!(decode_argument::<i32>(&argv, 0), Ok(1));
    assert_eq!(decode_argument::<i32>(&argv, 1), Err(31));
    assert_eq!(decode_argument::<String>(&argv, 1), Ok("x".to_string()));
    assert_eq!(decode_argument::<i32>(&argv, 2), Ok(3));
    assert_eq!(decode_argument::<String>(&argv, 2), Ok("3".to_string()));
    assert_eq!(decode_argument::<i32>(&argv, 3), Err(33));
    assert_eq!(decode_argument::<String>(&argv, 3), Ok("\"y\"".to_string()));
}

#[test]
fn respond_writes_or_reports_overflow() {
    let mut buf = chars(b"zzzz");
    assert_eq!(respond(&123i32, &mut buf, 4), 0);
    assert_eq!(buf, chars(b"123\0"));
    assert_eq!(respond(&1234i32, &mut buf, 4), 4);
    assert_eq!(buf, chars(b"123\0"));
    assert_eq!(respond(&true, &mut buf, 4), 4);
    assert_eq!(respond(&"ab".to_string(), &mut buf, 4), 0);
    assert_eq!(buf, chars(b"ab\0\0"));
}

#[test]
fn take_checks_count_then_decodes_in_order() {
    let args = strings(&["\"1\"", "true", "x"]);
    assert_eq!(take::<(i32, bool, String)>(Some(&args), Some(3)), Ok((1, true, "x".to_string())));
    assert_eq!(take::<(i32, bool)>(Some(&args), Some(2)), Ok((1, true)));
    assert_eq!(take::<(i32,)>(Some(&args), Some(1)), Ok((1,)));
    assert_eq!(take::<()>(None, None), Ok(()));
    assert_eq!(take::<()>(Some(&args), Some(3)), Err(23));
    assert_eq!(take::<(i32, bool)>(Some(&args), Some(3)), Err(23));
    assert_eq!(take::<(bool, bool, bool)>(Some(&args), Some(3)), Err(30));
    assert_eq!(take::<(i32, i32, i32)>(Some(&args), Some(3)), Err(31));
    assert_eq!(take::<(i32, bool, i32)>(Some(&args), Some(3)), Err(32));
    assert_eq!(take::<(i32, bool, i32)>(None, None), Err(20));
    assert_eq!(take::<()>(Some(&args), Some(0)), Ok(()));
    assert_eq!(take::<()>(Some(&args), None), Ok(()));
}

#[test]
fn tuples_know_their_number_of_parameters() {
    assert_eq!(<() as FromArguments>::parameters(), 0);
    assert_eq!(<(i32,) as FromArguments>::parameters(), 1);
    assert_eq!(<(i32, String) as FromArguments>::parameters(), 2);
    assert_eq!(
        <(u8, u8, u8, u8, u8, u8, u8, u8, u8, u8, u8, u8) as FromArguments>::parameters(),
        12
    );
    let argv = strings(&["1", "b"]);
    assert_eq!(<(i32, String) as FromArguments>::decode(&argv), Ok((1, "b".to_string())));
    assert_eq!(<(i32, i32) as FromArguments>::decode(&argv), Err(31));
    assert_eq!(<(bool, i32) as FromArguments>::decode(&argv), Err(30));
}

#[test]
fn count_that_cannot_be_written_is_status_two() {
    let add = |a: i32, b: i32| a + b;
    let args = strings(&["1", "2"]);
    let mut buf = chars(b"zzzz");
    for count in [-1, -2, libc::c_int::MIN, 147_483_648, libc::c_int::MAX] {
        let status = CommandFactory::<(i32, i32), i32>::call(
            &add,
            context(),
            &mut buf,
            4,
            Some(&args),
            Some(count),
        );
        assert_eq!(status, 2);
        let status =
            CommandFactory::<(i32, i32), i32>::call(&add, context(), &mut buf, 4, None, Some(count));
        assert_eq!(status, 2);
        assert_eq!(buf, chars(b"zzzz"));
    }
}

#[test]
fn missing_argument_fails_at_its_position() {
    let calls = Rc::new(Cell::new(0));
    let seen = calls.clone();
    let sum = move |a: i32, b: i32, c: i32| {
        seen.set(seen.get() + 1);
        a + b + c
    };
    let mut buf = chars(b"zzzz");
    let status =
        CommandFactory::<(i32, i32, i32), i32>::call(&sum, context(), &mut buf, 4, None, Some(3));
    assert_eq!(status, 30);
    let none = strings(&[]);
    let status = CommandFactory::<(i32, i32, i32), i32>::call(
        &sum,
        context(),
        &mut buf,
        4,
        Some(&none),
        Some(3),
    );
    assert_eq!(status, 30);
    let one = strings(&["1"]);
    let status = CommandFactory::<(i32, i32, i32), i32>::call(
        &sum,
        context(),
        &mut buf,
        4,
        Some(&one),
        Some(3),
    );
    assert_eq!(status, 31);
    let two = strings(&["1", "2"]);
    let status = CommandFactory::<(i32, i32, i32), i32>::call(
        &sum,
        context(),
        &mut buf,
        4,
        Some(&two),
        Some(3),
    );
    assert_eq!(status, 32);
    let bad = strings(&["x"]);
    let status = CommandFactory::<(i32, i32, i32), i32>::call(
        &sum,
        context(),
        &mut buf,
        4,
        Some(&bad),
        Some(3),
    );
    assert_eq!(status, 30);
    assert_eq!(buf, chars(b"zzzz"));
    assert_eq!(calls.get(), 0);
    assert_eq!(take::<(i32, i32)>(None, Some(2)), Err(30));
    assert_eq!(take::<(i32, i32)>(Some(&one), Some(2)), Err(31));
    assert_eq!(decode_argument::<i32>(&one, 1), Err(31));
    assert_eq!(decode_argument::<String>(&none, 0), Err(30));
}

#[test]
fn arguments_to_read_follows_the_count() {
    assert_eq!(arguments_to_read(None), 0);
    assert_eq!(arguments_to_read(Some(0)), 0);
    assert_eq!(arguments_to_read(Some(-1)), 0);
    assert_eq!(arguments_to_read(Some(1)), 1);
    assert_eq!(arguments_to_read(Some(12)), 12);
    assert_eq!(arguments_to_read(Some(13)), 0);
    assert_eq!(arguments_to_read(Some(libc::c_int::MAX)), 0);
}

#[test]
fn registered_handler_keeps_call_order_and_statuses() {
    let handler = fn_handler(|a: String, b: String| format!("{}-{}", a, b));
    let args = strings(&["x", "y"]);
    let mut buf = chars(b"zzzzzzzz");
    assert_eq!(handler.call(context(), &mut buf, 8, Some(&args), Some(2)), 0);
    assert_eq!(buf, chars(b"x-y\0zzzz"));
    assert_eq!(handler.call(context(), &mut buf, 3, Some(&args), Some(2)), 4);
    assert_eq!(handler.call(context(), &mut buf, 8, None, None), 20);
    assert_eq!(handler.call(context(), &mut buf, 8, None, Some(2)), 30);
    assert_eq!(handler.call(context(), &mut buf, 8, None, Some(-7)), 2);
    assert_eq!(buf, chars(b"x-y\0zzzz"));

    let quiet = fn_handler(|_a: i32| {});
    let args = strings(&["5"]);
    assert_eq!(quiet.call(context(), &mut buf, 8, Some(&args), Some(1)), 0);
    let args = strings(&["five"]);
    assert_eq!(quiet.call(context(), &mut buf, 8, Some(&args), Some(1)), 30);
    assert_eq!(buf, chars(b"x-y\0zzzz"));
}
