use mokuba::mstd::codec::Codec;
use mokuba::mstd::error::ErrorCode;

#[test]
fn codec_test_string_should_succeed() {
    let str = "hello world".to_string();
    assert_eq!(str.encode(), "hello world");
    assert_eq!(Some("hello world".to_string()).unwrap(), str);
    assert!(String::is(str));
}

#[test]
fn codec_test_u32_should_succeed() {
    let u = 42u32;
    assert_eq!(u.encode(), "42");
    assert_eq!(u32::decode(Some("42")).unwrap(), u);
    assert!(u32::is("42".to_string()))
}

#[test]
fn codec_test_u32_should_fail_when_not_a_number() {
    assert!(u32::decode(Some("hello world")).is_err());
    assert!(!u32::is("hello world".to_string()));
}

#[test]
fn codec_test_u64_should_succeed() {
    let u = 42u64;
    assert_eq!(u.encode(), "42");
    assert_eq!(u64::decode(Some("42")).unwrap(), u);
    assert!(u64::is("42".to_string()));
}

#[test]
fn codec_test_u64_should_fail_when_not_a_number() {
    assert!(u64::decode(Some("hello world")).is_err());
    assert!(!u64::is("hello world".to_string()));
}

#[test]
fn codec_test_bool_should_succeed() {
    let b = true;
    assert_eq!(b.encode(), "true");
    assert_eq!(bool::decode(Some("true")).unwrap(), b);
    assert!(bool::is("true".to_string()));
}

#[test]
fn codec_test_bool_should_fail_when_not_a_bool() {
    assert!(bool::decode(Some("hello world")).is_err());
    assert!(!bool::is("hello world".to_string()));
}

#[test]
fn codec_test_char_should_succeed() {
    let c = 'a';
    assert_eq!(c.encode(), "a");
    assert_eq!(char::decode(Some("a")).unwrap(), c);
    assert!(char::is("a".to_string()));
}

#[test]
fn codec_test_char_should_fail_when_not_a_char() {
    assert!(char::decode(Some("hello world")).is_err());
    assert!(!char::is("hello world".to_string()));
}

#[test]
fn codec_test_vec_should_succeed() {
    let v = vec![1, 2, 3];
    assert_eq!(v.encode(), "1 2 3");
    assert_eq!(Vec::<u32>::decode(Some("1 2 3")).unwrap(), v);
    assert!(Vec::<u32>::is("1 2 3".to_string()));
}

#[test]
fn codec_test_vec_should_fail_when_not_a_vec() {
    assert!(Vec::<u32>::decode(Some("hello world")).is_err());
    assert!(!Vec::<u32>::is("hello world".to_string()));
}

#[test]
fn codec_test_vec_of_strings_should_succeed() {
    let v = vec!["hello".to_string(), "world".to_string()];
    assert_eq!(v.encode(), "hello world");
    assert_eq!(Vec::<String>::decode(Some("hello world")).unwrap(), v);
    assert!(Vec::<String>::is("hello world".to_string()));
}

#[test]
fn codec_test_vec_of_strings_should_fail_when_not_a_vec_of_u32() {
    assert!(Vec::<u32>::decode(Some("hello world 42")).is_err());
}

#[test]
fn test_something() {
    let asdas = "";
    assert!(asdas.is_empty());
}

#[test]
fn primitives_read_back_their_encoding() {
    for v in [0u32, 7, 10, 4294967295] {
        assert_eq!(u32::decode(Some(v.encode().as_str())).unwrap(), v);
    }
    for v in [0u64, 18446744073709551615] {
        assert_eq!(u64::decode(Some(v.encode().as_str())).unwrap(), v);
    }
    for v in [0i32, -1, 2147483647, -2147483648] {
        assert_eq!(i32::decode(Some(v.encode().as_str())).unwrap(), v);
    }
    for v in [true, false] {
        assert_eq!(bool::decode(Some(v.encode().as_str())).unwrap(), v);
    }
    for v in ['a', ' ', 'é', '字'] {
        assert_eq!(char::decode(Some(v.encode().as_str())).unwrap(), v);
    }
    let s = "two words".to_string();
    assert_eq!(String::decode(Some(s.encode().as_str())).unwrap(), s);
}

#[test]
fn integer_encodings_are_exact() {
    assert_eq!(0u32.encode(), "0");
    assert_eq!(4294967295u32.encode(), "4294967295");
    assert_eq!((-2147483648i32).encode(), "-2147483648");
    assert_eq!(305i32.encode(), "305");
    assert_eq!(18446744073709551615u64.encode(), "18446744073709551615");
}

#[test]
fn integer_literals_follow_their_width() {
    assert_eq!(u32::decode(Some("+42")).unwrap(), 42);
    assert_eq!(u32::decode(Some("007")).unwrap(), 7);
    assert!(u32::decode(Some("4294967296")).is_err());
    assert!(u32::decode(Some("-1")).is_err());
    assert!(u32::decode(Some("+")).is_err());
    assert!(u32::decode(Some("")).is_err());
    assert!(u32::decode(Some(" 1")).is_err());
    assert_eq!(u64::decode(Some("4294967296")).unwrap(), 4294967296);
    assert!(u64::decode(Some("18446744073709551616")).is_err());
    assert_eq!(i32::decode(Some("-2147483648")).unwrap(), i32::MIN);
    assert_eq!(i32::decode(Some("+17")).unwrap(), 17);
    assert_eq!(i32::decode(Some("-0")).unwrap(), 0);
    assert!(i32::decode(Some("-2147483649")).is_err());
    assert!(i32::decode(Some("2147483648")).is_err());
    assert!(i32::decode(Some("-")).is_err());
}

#[test]
fn booleans_are_case_sensitive() {
    assert_eq!(bool::decode(Some("false")).unwrap(), false);
    assert_eq!(false.encode(), "false");
    assert!(bool::decode(Some("True")).is_err());
    assert!(!bool::is("maybe".to_string()));
}

#[test]
fn characters_are_counted_not_bytes() {
    assert_eq!(char::decode(Some("é")).unwrap(), 'é');
    assert!(char::decode(Some("")).is_err());
    assert!(char::decode(Some("ab")).is_err());
    assert!(char::is("é".to_string()));
}

#[test]
fn empty_string_is_rejected() {
    let e = String::decode(Some("")).unwrap_err();
    assert_eq!(e.code, ErrorCode::UnableToDecodeT);
    assert!(!String::is("".to_string()));
    assert_eq!(String::decode(Some(" ")).unwrap(), " ");
}

#[test]
fn absent_input_is_an_error_except_for_options() {
    assert_eq!(String::decode(None).unwrap_err().code, ErrorCode::UnableToDecodeT);
    assert_eq!(u32::decode(None).unwrap_err().code, ErrorCode::UnableToDecodeT);
    assert_eq!(u64::decode(None).unwrap_err().code, ErrorCode::UnableToDecodeT);
    assert_eq!(i32::decode(None).unwrap_err().code, ErrorCode::UnableToDecodeT);
    assert_eq!(bool::decode(None).unwrap_err().code, ErrorCode::UnableToDecodeT);
    assert_eq!(char::decode(None).unwrap_err().code, ErrorCode::UnableToDecodeT);
    assert_eq!(Vec::<u32>::decode(None).unwrap_err().code, ErrorCode::UnableToDecodeT);
    assert_eq!(Option::<u32>::decode(None).unwrap(), None);
}

#[test]
fn malformed_input_fails_closed() {
    assert!(u32::decode(Some("hello world")).is_err());
    assert!(bool::decode(Some("hello world")).is_err());
    let e = Vec::<u32>::decode(Some("1 2 three")).unwrap_err();
    assert_eq!(e.code, ErrorCode::UnableToDecodeT);
    assert_eq!(e.cause, "Unable to decode three to Vec<A>");
}

#[test]
fn sequence_scenario() {
    let v: Vec<u32> = vec![1, 2, 3];
    assert_eq!(v.encode(), "1 2 3");
    assert_eq!(Vec::<u32>::decode(Some("1 2 3")).unwrap(), vec![1, 2, 3]);
    let back = Vec::<u32>::decode(Some(v.encode().as_str())).unwrap();
    assert_eq!(back, v);
}

#[test]
fn boolean_scenario() {
    assert_eq!(true.encode(), "true");
    assert_eq!(bool::decode(Some("true")).unwrap(), true);
    assert!(!bool::is("maybe".to_string()));
}

#[test]
fn strings_sequence_scenario() {
    let v = vec!["hello".to_string(), "world".to_string()];
    assert_eq!(v.encode(), "hello world");
    assert_eq!(
        Vec::<String>::decode(Some("hello world")).unwrap(),
        vec!["hello".to_string(), "world".to_string()]
    );
}

#[test]
fn sequences_split_on_any_whitespace() {
    assert_eq!(
        Vec::<i32>::decode(Some("  -1\t2\n\n 3\u{3000}4 ")).unwrap(),
        vec![-1, 2, 3, 4]
    );
    assert_eq!(Vec::<u32>::decode(Some("")).unwrap(), Vec::<u32>::new());
    assert_eq!(Vec::<u32>::decode(Some(" \t ")).unwrap(), Vec::<u32>::new());
    assert_eq!(Vec::<u32>::new().encode(), "");
    assert_eq!(vec![-4i32, 0, 12].encode(), "-4 0 12");
    assert!(Vec::<u32>::is("".to_string()));
}

#[test]
fn is_agrees_with_decode() {
    for s in ["", "0", "+0", "-0", "12 13", "true", "x", "é", "4294967296", " 5 "] {
        assert_eq!(u32::is(s.to_string()), u32::decode(Some(s)).is_ok());
        assert_eq!(u64::is(s.to_string()), u64::decode(Some(s)).is_ok());
        assert_eq!(i32::is(s.to_string()), i32::decode(Some(s)).is_ok());
        assert_eq!(bool::is(s.to_string()), bool::decode(Some(s)).is_ok());
        assert_eq!(char::is(s.to_string()), char::decode(Some(s)).is_ok());
        assert_eq!(String::is(s.to_string()), String::decode(Some(s)).is_ok());
        assert_eq!(Vec::<u32>::is(s.to_string()), Vec::<u32>::decode(Some(s)).is_ok());
        assert_eq!(Option::<u32>::is(s.to_string()), Option::<u32>::decode(Some(s)).is_ok());
    }
}

#[test]
fn options_wrap_the_inner_codec() {
    assert_eq!(Option::<u32>::decode(Some("5")).unwrap(), Some(5));
    assert!(Option::<u32>::decode(Some("")).is_err());
    assert!(Option::<u32>::decode(Some("five")).is_err());
    assert_eq!(Some(12u32).encode(), "12");
    assert_eq!(None::<u32>.encode(), "");
    assert!(Option::<bool>::is("false".to_string()));
}

#[test]
fn narrowing_keeps_representable_values() {
    let u = 7u32;
    let small: Result<u8, _> = u._as(200u32);
    assert_eq!(small.unwrap(), 200u8);
    let big: Result<u8, _> = u._as(300u32);
    assert_eq!(big.unwrap_err().code, ErrorCode::UnableToDecodeT);
}
