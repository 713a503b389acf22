use arma_rs::{Context, Extension, Group, Registry};

fn strings(items: &[&str]) -> Vec<String> {
    items.iter().map(|s| s.to_string()).collect()
}

fn chars(text: &[u8]) -> Vec<libc::c_char> {
    text.iter().map(|c| *c as libc::c_char).collect()
}

fn sample() -> Extension<impl Registry> {
    Extension::build()
        .version("1.0.0".to_string())
        .command("hello", || "Hello".to_string())
        .command("add", |a: i32, b: i32| a + b)
        .group(
            "math",
            Group::new()
                .command("double", |a: i32| a * 2)
                .group("deep", Group::new().command("negate", |a: i32| -a)),
        )
        .command("size", |context: Context| context.buffer_size() as u32)
        .finish()
}

#[test]
fn builder_sets_version_and_no_args() {
    let extension = Extension::build().finish();
    assert_eq!(extension.version(), "0.1.0");
    assert!(!extension.allow_no_args());

    let extension = Extension::build().version("2.3.4".to_string()).allow_no_args().finish();
    assert_eq!(extension.version(), "2.3.4");
    assert!(extension.allow_no_args());

    let extension = Extension::build().allow_no_args().version("5".to_string()).finish();
    assert_eq!(extension.version(), "5");
    assert!(extension.allow_no_args());
}

#[test]
fn dispatches_by_name() {
    let extension = sample();
    let mut buf = chars(b"zzzzzzzz");
    assert_eq!(extension.handle(b"hello", &mut buf, 8, None, None), 0);
    assert_eq!(buf, chars(b"Hello\0zz"));

    let args = strings(&["40", "2"]);
    assert_eq!(extension.handle(b"add", &mut buf, 8, Some(&args), Some(2)), 0);
    assert_eq!(buf, chars(b"42\0lo\0zz"));
}

#[test]
fn dispatches_into_groups() {
    let extension = sample();
    let args = strings(&["21"]);
    let mut buf = chars(b"zzzz");
    assert_eq!(extension.handle(b"math:double", &mut buf, 4, Some(&args), Some(1)), 0);
    assert_eq!(buf, chars(b"42\0z"));
    assert_eq!(extension.handle(b"math:deep:negate", &mut buf, 4, Some(&args), Some(1)), 0);
    assert_eq!(buf, chars(b"-21\0"));
    assert_eq!(extension.handle(b"math:negate", &mut buf, 4, Some(&args), Some(1)), 1);
    assert_eq!(extension.handle(b"deep:negate", &mut buf, 4, Some(&args), Some(1)), 1);
    assert_eq!(extension.handle(b"double", &mut buf, 4, Some(&args), Some(1)), 1);
    assert_eq!(extension.handle(b"math", &mut buf, 4, Some(&args), Some(1)), 1);
    assert_eq!(extension.handle(b"math:", &mut buf, 4, Some(&args), Some(1)), 1);
    assert_eq!(extension.handle(b":double", &mut buf, 4, Some(&args), Some(1)), 1);
    assert_eq!(buf, chars(b"-21\0"));
}

#[test]
fn name_that_is_no_text_is_status_one() {
    let extension = sample();
    let mut buf = chars(b"zzzz");
    assert_eq!(extension.handle(&[0x68, 0xff, 0x6c], &mut buf, 4, None, None), 1);
    assert_eq!(extension.handle(&[0xc3], &mut buf, 4, None, None), 1);
    assert_eq!(extension.handle(b"unknown", &mut buf, 4, None, None), 1);
    assert_eq!(extension.handle(b"", &mut buf, 4, None, None), 1);
    assert_eq!(buf, chars(b"zzzz"));
}

#[test]
fn engine_statuses_pass_through_dispatch() {
    let extension = sample();
    let mut buf = chars(b"zzzz");
    let args = strings(&["1", "2", "3"]);
    assert_eq!(extension.handle(b"add", &mut buf, 4, Some(&args), Some(3)), 23);
    assert_eq!(extension.handle(b"add", &mut buf, 4, None, None), 20);
    let args = strings(&["1", "two"]);
    assert_eq!(extension.handle(b"add", &mut buf, 4, Some(&args), Some(2)), 31);
    assert_eq!(extension.handle(b"hello", &mut buf, 4, None, None), 4);
    assert_eq!(buf, chars(b"zzzz"));
}

#[test]
fn handler_is_told_the_buffer_size() {
    let extension = sample();
    let mut buf = chars(b"zzzzzzzzzzzzzzzz");
    assert_eq!(extension.handle(b"size", &mut buf, 16, None, None), 0);
    assert_eq!(&buf[..3], &chars(b"16\0")[..]);
    assert_eq!(extension.handle(b"size", &mut buf, 9, None, None), 0);
    assert_eq!(&buf[..4], &chars(b"9\0\0z")[..]);
    assert_eq!(extension.context().buffer_size(), 0);
}

#[test]
fn later_registration_replaces_earlier() {
    let extension = Extension::build()
        .command("pick", || 1i32)
        .command("pick", || 2i32)
        .group("g", Group::new().command("pick", || 3i32))
        .group("g", Group::new().command("pick", || 4i32).command("other", || 5i32))
        .finish();
    let mut buf = chars(b"zz");
    assert_eq!(extension.handle(b"pick", &mut buf, 2, None, None), 0);
    assert_eq!(buf, chars(b"2\0"));
    assert_eq!(extension.handle(b"g:pick", &mut buf, 2, None, None), 0);
    assert_eq!(buf, chars(b"4\0"));
    assert_eq!(extension.handle(b"g:other", &mut buf, 2, None, None), 0);
    assert_eq!(buf, chars(b"5\0"));
}

#[test]
fn command_with_separator_in_its_name_is_never_reached() {
    let extension = Extension::build()
        .command("a:b", || 1i32)
        .group("a", Group::new().command("b", || 2i32))
        .finish();
    let mut buf = chars(b"zz");
    assert_eq!(extension.handle(b"a:b", &mut buf, 2, None, None), 0);
    assert_eq!(buf, chars(b"2\0"));

    let extension = Extension::build().command("a:b", || 1i32).finish();
    assert_eq!(extension.handle(b"a:b", &mut buf, 2, None, None), 1);
}

#[test]
fn contexts_share_the_extension_queue() {
    let extension = Extension::build()
        .command("notify", |context: Context, text: String| {
            context.callback("ext", "notified", Some(text));
        })
        .finish();
    let worker = extension.callback_queue();
    extension.context().callback::<String>("ext", "direct", None);
    let args = strings(&["\"via handler\""]);
    let mut buf = chars(b"zz");
    assert_eq!(extension.handle(b"notify", &mut buf, 2, Some(&args), Some(1)), 0);
    extension.context().clone().callback("ext", "number", Some(7u8));

    let first = worker.pop().unwrap();
    assert_eq!(first.function, "direct");
    assert!(first.data.is_none());
    let second = worker.pop().unwrap();
    assert_eq!(second.function, "notified");
    assert_eq!(second.data.unwrap().into_output(), "via handler");
    let third = worker.pop().unwrap();
    assert_eq!(third.function, "number");
    assert_eq!(third.data.unwrap().into_output(), "7");
    assert!(worker.pop().is_none());
}

#[test]
fn group_dispatches_on_its_own() {
    let group = Group::new()
        .command("one", || 1i32)
        .group("inner", Group::new().command("two", || 2i32));
    let queue = arma_rs::queue::CallbackQueue::new();
    let mut buf = chars(b"zz");
    assert_eq!(group.handle(Context::new(queue.clone()), "one", &mut buf, 2, None, None), 0);
    assert_eq!(buf, chars(b"1\0"));
    assert_eq!(
        group.handle(Context::new(queue.clone()), "inner:two", &mut buf, 2, None, None),
        0
    );
    assert_eq!(buf, chars(b"2\0"));
    assert_eq!(group.handle(Context::new(queue), "two", &mut buf, 2, None, None), 1);
    assert_eq!(Group::new().handle(Context::new(arma_rs::queue::CallbackQueue::new()), "one", &mut buf, 2, None, None), 1);
}

#[test]
fn echo_loses_exactly_one_pair_of_quotes() {
    let extension = Extension::build().command("echo", |s: String| s).finish();
    let args = strings(&["\"\"a\"\""]);
    let mut buf = chars(b"zzzzzzzz");
    assert_eq!(extension.handle(b"echo", &mut buf, 8, Some(&args), Some(1)), 0);
    assert_eq!(buf, chars(b"\"a\"\0zzzz"));
}

#[test]
fn every_count_and_argument_list_ends_in_a_status() {
    let extension = sample();
    let mut buf = chars(b"zzzz");
    let one = strings(&["1"]);
    assert_eq!(extension.handle(b"add", &mut buf, 4, None, Some(2)), 30);
    assert_eq!(extension.handle(b"add", &mut buf, 4, Some(&one), Some(2)), 31);
    assert_eq!(extension.handle(b"add", &mut buf, 4, Some(&one), Some(-1)), 2);
    assert_eq!(extension.handle(b"add", &mut buf, 4, None, Some(libc::c_int::MAX)), 2);
    assert_eq!(extension.handle(b"add", &mut buf, 4, None, Some(libc::c_int::MIN)), 2);
    assert_eq!(extension.handle(b"math:double", &mut buf, 4, None, Some(1)), 30);
    assert_eq!(extension.handle(b"nothing", &mut buf, 4, None, Some(-1)), 1);
    assert_eq!(buf, chars(b"zzzz"));
}

#[test]
fn new_extension_has_an_empty_queue() {
    let extension = Extension::build().finish();
    assert!(extension.callback_queue().pop().is_none());
}
