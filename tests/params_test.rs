use zsh_system::{
    array_value, c_compatible, host_text, join_words, parse_i64, render_integer, scalar_value,
    split_words, NodeStep, ParamError, ParamValue, ZshAnyPtr, ZshParamPtr, ZshParameter, ZshType,
    PM_ARRAY, PM_FFLOAT, PM_INTEGER,
};

#[test]
fn kind_follows_the_flags() {
    assert_eq!(ZshType::from_flags(0), ZshType::Scalar);
    assert_eq!(ZshType::from_flags(PM_ARRAY), ZshType::Array);
    assert_eq!(ZshType::from_flags(PM_INTEGER), ZshType::Integer);
    assert_eq!(ZshType::from_flags(PM_FFLOAT), ZshType::Float);
    assert_eq!(ZshType::from_flags(PM_ARRAY | PM_INTEGER), ZshType::Array);
    assert_eq!(ZshType::from_flags(PM_INTEGER | PM_FFLOAT), ZshType::Integer);
    assert_eq!(ZshType::from_flags(4), ZshType::Scalar);
}

#[test]
fn names_with_nul_are_not_c_compatible() {
    assert!(c_compatible("PATH"));
    assert!(c_compatible(""));
    assert!(!c_compatible("PA\0TH"));
}

#[test]
fn handle_looks_up_once_while_the_node_lives() {
    let mut p: ZshParamPtr<String> = ZshParameter::direct("FOO");
    assert_eq!(p.name(), "FOO");
    assert_eq!(p.cached_node(), None);
    assert_eq!(p.node_step(true), Ok(NodeStep::Lookup));
    assert_eq!(p.accept_lookup(Some(0x10)), Ok(0x10));
    for _ in 0..3 {
        assert_eq!(p.node_step(true), Ok(NodeStep::Cached(0x10)));
    }
    assert_eq!(p.cached_node(), Some(0x10));
}

#[test]
fn invalidated_node_is_looked_up_again_once() {
    let mut p: ZshParamPtr<i64> = ZshParameter::direct("N");
    assert_eq!(p.accept_lookup(Some(0x10)), Ok(0x10));
    assert_eq!(p.node_step(false), Ok(NodeStep::Lookup));
    assert_eq!(p.accept_lookup(Some(0x20)), Ok(0x20));
    assert_eq!(p.node_step(true), Ok(NodeStep::Cached(0x20)));
}

#[test]
fn failed_lookup_reports_not_found() {
    let mut p: ZshParamPtr<Vec<String>> = ZshParameter::direct("NOPE");
    assert_eq!(p.accept_lookup(None), Err(ParamError::NotFound));
    assert_eq!(p.cached_node(), None);
    assert_eq!(ParamError::NotFound.message(), "Parameter not found");
}

#[test]
fn name_with_nul_cannot_be_looked_up() {
    let p = ZshAnyPtr::new("A\0B");
    assert_eq!(p.node_step(true), Err(ParamError::InvalidName));
    assert_eq!(ParamError::InvalidName.message(), "Invalid name");
}

#[test]
fn values_read_as_text() {
    assert_eq!(ZshAnyPtr::get_as_string(&ParamValue::Scalar("bar".to_string())), "bar");
    assert_eq!(ZshAnyPtr::get_as_string(&ParamValue::Integer(-42)), "-42");
    assert_eq!(ZshAnyPtr::get_as_string(&ParamValue::Integer(0)), "0");
    let arr = ParamValue::Array(vec!["a".to_string(), "b".to_string()]);
    assert_eq!(ZshAnyPtr::get_as_string(&arr), "a b");
    assert_eq!(ZshAnyPtr::get_as_string(&ParamValue::Array(vec![])), "");
}

#[test]
fn text_is_stored_by_the_variable_kind() {
    match ZshAnyPtr::set_from_string(ZshType::Scalar, " x y ") {
        Ok(ParamValue::Scalar(s)) => assert_eq!(s, " x y "),
        _ => panic!("expected a scalar"),
    }
    match ZshAnyPtr::set_from_string(ZshType::Integer, "123") {
        Ok(ParamValue::Integer(i)) => assert_eq!(i, 123),
        _ => panic!("expected an integer"),
    }
    match ZshAnyPtr::set_from_string(ZshType::Array, "  a\tb\n c ") {
        Ok(ParamValue::Array(v)) => assert_eq!(v, vec!["a", "b", "c"]),
        _ => panic!("expected an array"),
    }
    assert!(matches!(
        ZshAnyPtr::set_from_string(ZshType::Integer, "12a"),
        Err(ParamError::NotAnInteger)
    ));
    assert_eq!(ParamError::NotAnInteger.message(), "Not an integer");
    assert_eq!(ParamError::NotAFloat.message(), "Not a float");
}

#[test]
fn list_round_trip_keeps_order() {
    let v = vec!["a".to_string(), "b".to_string()];
    let text = ZshAnyPtr::get_as_string(&ParamValue::Array(v.clone()));
    match ZshAnyPtr::set_from_string(ZshType::Array, &text) {
        Ok(ParamValue::Array(back)) => assert_eq!(back, v),
        _ => panic!("expected an array"),
    }
}

#[test]
fn scalar_round_trip_through_host_bytes() {
    let value = "bar";
    assert_eq!(scalar_value(Some(value.as_bytes())), "bar");
    assert_eq!(scalar_value(None), "");
    let items: Vec<&[u8]> = vec![b"a", b"b"];
    assert_eq!(array_value(Some(&items)), vec!["a", "b"]);
    assert!(array_value(None).is_empty());
}

#[test]
fn host_text_replaces_invalid_bytes() {
    assert_eq!(host_text(b"ok"), "ok");
    assert_eq!(host_text(&[b'a', 0xff, b'b']), "a\u{FFFD}b");
}

#[test]
fn integers_parse_like_std() {
    assert_eq!(parse_i64("0"), Some(0));
    assert_eq!(parse_i64("+17"), Some(17));
    assert_eq!(parse_i64("-17"), Some(-17));
    assert_eq!(parse_i64("007"), Some(7));
    assert_eq!(parse_i64(""), None);
    assert_eq!(parse_i64("-"), None);
    assert_eq!(parse_i64("+"), None);
    assert_eq!(parse_i64(" 1"), None);
    assert_eq!(parse_i64("9223372036854775807"), Some(i64::MAX));
    assert_eq!(parse_i64("9223372036854775808"), None);
    assert_eq!(parse_i64("-9223372036854775808"), Some(i64::MIN));
    assert_eq!(parse_i64("-9223372036854775809"), None);
    assert_eq!(parse_i64("99999999999999999999x"), None);
}

#[test]
fn integers_render_like_std() {
    assert_eq!(render_integer(0), "0");
    assert_eq!(render_integer(10), "10");
    assert_eq!(render_integer(-305), "-305");
    assert_eq!(render_integer(i64::MAX), i64::MAX.to_string());
    assert_eq!(render_integer(i64::MIN), i64::MIN.to_string());
}

#[test]
fn words_split_on_unicode_space() {
    assert_eq!(split_words("a\u{3000}b\u{A0}c"), vec!["a", "b", "c"]);
    assert!(split_words("   ").is_empty());
    assert!(split_words("").is_empty());
    assert_eq!(
        join_words(&["x".to_string(), "y".to_string(), "z".to_string()]),
        "x y z"
    );
}
