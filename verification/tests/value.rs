use arma_rs::text::{
    check_decimal_literal, chars_of, digits_only, find_first, integer_string, parse_integer, unquote,
};
use arma_rs::value::{Number, Value};
use arma_rs::convert::decode;
use arma_rs::{FromArma, IntoArma};

#[test]
fn unquote_strips_one_pair() {
    assert_eq!(unquote("\"hello\""), "hello");
    assert_eq!(unquote("\"\"hello\"\""), "\"hello\"");
    assert_eq!(unquote("\"\""), "");
    assert_eq!(unquote("hello"), "hello");
    assert_eq!(unquote(""), "");
}

#[test]
fn unquote_leaves_a_lone_quote() {
    assert_eq!(unquote("\""), "\"");
    assert_eq!(unquote("\"hello"), "\"hello");
    assert_eq!(unquote("hello\""), "hello\"");
    assert_eq!(unquote("he\"llo"), "he\"llo");
}

#[test]
fn chars_of_text() {
    assert_eq!(chars_of("aö\"z"), vec!['a', 'ö', '"', 'z']);
    assert_eq!(chars_of(""), Vec::<char>::new());
}

#[test]
fn integer_string_matches_formatting() {
    for n in [0i64, 1, 9, 10, 11, 99, 100, 12345, -1, -10, -12345, i64::MAX, i64::MIN] {
        assert_eq!(integer_string(n), format!("{}", n));
    }
}

#[test]
fn parse_integer_accepts_what_native_parsing_accepts() {
    let texts = [
        "0", "7", "+7", "-7", "007", "-0", "+0", "127", "128", "-128", "-129", "255", "256", "",
        "+", "-", "--1", "+-1", "1 ", " 1", "1.0", "1e3", "0x10", "٣", "12a", "a12",
        "2147483647", "2147483648", "-2147483648", "-2147483649", "99999999999999999999999999",
        "-99999999999999999999999999", "18446744073709551615", "18446744073709551616",
    ];
    for text in texts {
        assert_eq!(
            parse_integer(text, i8::MIN as i128, i8::MAX as i128),
            text.parse::<i8>().ok().map(|v| v as i128),
            "i8 {:?}",
            text
        );
        assert_eq!(
            parse_integer(text, 0, u8::MAX as i128),
            text.parse::<u8>().ok().map(|v| v as i128),
            "u8 {:?}",
            text
        );
        assert_eq!(
            parse_integer(text, i32::MIN as i128, i32::MAX as i128),
            text.parse::<i32>().ok().map(|v| v as i128),
            "i32 {:?}",
            text
        );
        assert_eq!(
            parse_integer(text, 0, u64::MAX as i128),
            text.parse::<u64>().ok().map(|v| v as i128),
            "u64 {:?}",
            text
        );
        assert_eq!(
            parse_integer(text, i64::MIN as i128, i64::MAX as i128),
            text.parse::<i64>().ok().map(|v| v as i128),
            "i64 {:?}",
            text
        );
    }
}

#[test]
fn decode_integers() {
    assert_eq!(i32::from_arma("42".to_string()), Ok(42));
    assert_eq!(i32::from_arma("-42".to_string()), Ok(-42));
    assert_eq!(i32::from_arma("forty".to_string()), Err("forty".to_string()));
    assert_eq!(u8::from_arma("255".to_string()), Ok(255));
    assert_eq!(u8::from_arma("256".to_string()), Err("256".to_string()));
    assert_eq!(u8::from_arma("-1".to_string()), Err("-1".to_string()));
    assert_eq!(i8::from_arma("-128".to_string()), Ok(-128));
    assert_eq!(i16::from_arma("32767".to_string()), Ok(32767));
    assert_eq!(u16::from_arma("65536".to_string()), Err("65536".to_string()));
    assert_eq!(u32::from_arma("4294967295".to_string()), Ok(u32::MAX));
    assert_eq!(i64::from_arma("-9223372036854775808".to_string()), Ok(i64::MIN));
    assert_eq!(u64::from_arma("18446744073709551615".to_string()), Ok(u64::MAX));
    assert_eq!(u64::from_arma("".to_string()), Err("".to_string()));
}

#[test]
fn decode_bool_and_string() {
    assert_eq!(bool::from_arma("true".to_string()), Ok(true));
    assert_eq!(bool::from_arma("false".to_string()), Ok(false));
    assert_eq!(bool::from_arma("True".to_string()), Err("True".to_string()));
    assert_eq!(bool::from_arma("1".to_string()), Err("1".to_string()));
    assert_eq!(String::from_arma("any text".to_string()), Ok("any text".to_string()));
    assert_eq!(String::from_arma("".to_string()), Ok("".to_string()));
}

#[test]
fn canonical_text_of_values() {
    assert_eq!(Value::Null.to_string(), "null");
    assert_eq!(Value::Boolean(true).to_string(), "true");
    assert_eq!(Value::Boolean(false).to_string(), "false");
    assert_eq!(Value::Number(Number::from_i64(-17)).to_string(), "-17");
    assert_eq!(Value::Number(Number::from_u64(u64::MAX)).to_string(), "18446744073709551615");
    assert_eq!(Value::String("hello".to_string()).to_string(), "\"hello\"");
    assert_eq!(Value::String("say \"hi\"".to_string()).to_string(), "\"say \"\"hi\"\"\"");
    assert_eq!(Value::Array(vec![]).to_string(), "[]");
    assert_eq!(Value::Array(vec![Value::Null]).to_string(), "[null]");
    let nested = Value::Array(vec![
        Value::Number(Number::from_i64(1)),
        Value::String("two".to_string()),
        Value::Array(vec![Value::Boolean(true), Value::Array(vec![]), Value::Null]),
    ]);
    assert_eq!(nested.to_string(), "[1,\"two\",[true,[],null]]");
}

#[test]
fn output_text_of_values() {
    assert_eq!(Value::String("say \"hi\"".to_string()).into_output(), "say \"hi\"");
    assert_eq!(Value::String("".to_string()).into_output(), "");
    assert_eq!(Value::Null.into_output(), "null");
    assert_eq!(Value::Number(Number::from_i64(5)).into_output(), "5");
    assert_eq!(Value::Array(vec![Value::String("a".to_string())]).into_output(), "[\"a\"]");
}

#[test]
fn encode_native_values() {
    assert_eq!(5i32.to_arma().to_string(), "5");
    assert_eq!((-5i8).to_arma().to_string(), "-5");
    assert_eq!(i16::MIN.to_arma().to_string(), "-32768");
    assert_eq!(u8::MAX.to_arma().to_string(), "255");
    assert_eq!(u16::MAX.to_arma().to_string(), "65535");
    assert_eq!(u32::MAX.to_arma().to_string(), "4294967295");
    assert_eq!(true.to_arma().to_string(), "true");
    assert_eq!("text".to_string().to_arma().to_string(), "\"text\"");
    assert_eq!("text".to_string().to_arma().into_output(), "text");
    let value = Value::Array(vec![Value::Null, Value::Boolean(false)]);
    assert_eq!(value.to_arma().to_string(), "[null,false]");
    assert_eq!(value.clone().to_string(), value.to_string());
}

#[test]
fn integers_round_trip_through_their_text() {
    for n in [i32::MIN, -1, 0, 1, 42, i32::MAX] {
        assert_eq!(i32::from_arma(n.to_arma().into_output()), Ok(n));
    }
    for n in [0u32, 9, 10, u32::MAX] {
        assert_eq!(u32::from_arma(n.to_arma().into_output()), Ok(n));
    }
    for b in [true, false] {
        assert_eq!(bool::from_arma(b.to_arma().into_output()), Ok(b));
    }
}

#[test]
fn number_keeps_its_text() {
    assert_eq!(Number::from_i64(-3).text(), "-3");
    assert_eq!(Number::from_u64(30).clone().text(), "30");
}

#[test]
fn decimal_literals() {
    for text in ["0", "7", "-7", "007", "1.5", "-1.5", "0.0000001", "123456789012345678901234567890.25", "-0"] {
        assert!(check_decimal_literal(text), "{:?}", text);
        assert_eq!(Number::parse(text).map(|n| n.text().to_string()), Some(text.to_string()));
    }
    for text in ["", "-", ".", "1.", ".5", "-.5", "1..5", "1.5.2", "+1", "1e5", "inf", "NaN", "-inf", " 1", "1 ", "--1", "1-", "٣", "1.٣"] {
        assert!(!check_decimal_literal(text), "{:?}", text);
        assert!(Number::parse(text).is_none());
    }
}

#[test]
fn numbers_from_floats_keep_their_text() {
    for f in [0.0f64, 1.0, -1.0, 0.5, -2.25, 1e21, 1e-7, 123456.789, f64::MAX, f64::MIN_POSITIVE] {
        let text = f.to_string();
        let number = Number::parse(&text).unwrap();
        assert_eq!(Value::Number(number).to_string(), text);
    }
    assert!(Number::parse(&f64::NAN.to_string()).is_none());
    assert!(Number::parse(&f64::INFINITY.to_string()).is_none());
}

#[test]
fn find_first_and_digits_only() {
    let chars = chars_of("ab:cd:e");
    assert_eq!(find_first(&chars, ':'), 2);
    assert_eq!(find_first(&chars, 'a'), 0);
    assert_eq!(find_first(&chars, 'e'), 6);
    assert_eq!(find_first(&chars, 'x'), 7);
    assert_eq!(find_first(&Vec::new(), 'x'), 0);
    let chars = chars_of("12a45");
    assert!(digits_only(&chars, 0, 2));
    assert!(!digits_only(&chars, 0, 3));
    assert!(digits_only(&chars, 3, 5));
    assert!(digits_only(&chars, 2, 2));
    assert!(!digits_only(&chars, 2, 3));
}

#[test]
fn decode_strips_one_pair_of_quotes_then_reads() {
    assert_eq!(decode::<String>("\"hello\""), Ok("hello".to_string()));
    assert_eq!(decode::<String>("hello"), Ok("hello".to_string()));
    assert_eq!(decode::<String>("\"\"hello\"\""), Ok("\"hello\"".to_string()));
    assert_eq!(decode::<String>("\""), Ok("\"".to_string()));
    assert_eq!(decode::<String>("\"\""), Ok("".to_string()));
    assert_eq!(decode::<i32>("\"42\""), Ok(42));
    assert_eq!(decode::<i32>("42"), Ok(42));
    assert_eq!(decode::<i32>("\"\"42\"\""), Err("\"42\"".to_string()));
    assert_eq!(decode::<i32>("\"42"), Err("\"42".to_string()));
    assert_eq!(decode::<u8>("\"256\""), Err("256".to_string()));
    assert_eq!(decode::<bool>("\"true\""), Ok(true));
    assert_eq!(decode::<bool>("\"no\""), Err("no".to_string()));
}

#[test]
fn from_arma_reads_the_text_as_it_stands() {
    assert_eq!(String::from_arma("\"hello\"".to_string()), Ok("\"hello\"".to_string()));
    assert_eq!(i32::from_arma("\"42\"".to_string()), Err("\"42\"".to_string()));
}

#[test]
fn encode_lists_and_options() {
    assert_eq!(vec![1i32, -2, 3].to_arma().to_string(), "[1,-2,3]");
    assert_eq!(Vec::<bool>::new().to_arma().to_string(), "[]");
    assert_eq!(vec!["a".to_string(), "b\"c".to_string()].to_arma().to_string(), "[\"a\",\"b\"\"c\"]");
    assert_eq!(vec![vec![1u8], vec![], vec![2, 3]].to_arma().to_string(), "[[1],[],[2,3]]");
    assert_eq!(Some(5u8).to_arma(), Value::Number(Number::from_u64(5)));
    assert_eq!(None::<u8>.to_arma(), Value::Null);
    assert_eq!(vec![Some(true), None].to_arma().into_output(), "[true,null]");
    assert_eq!(Some("text".to_string()).to_arma().into_output(), "text");
}
