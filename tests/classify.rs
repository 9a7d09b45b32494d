use datainspect::classify::{classify, infer_type, parses_as_bool, parses_as_f64, parses_as_i64, ValueClass};

#[test]
fn integers_are_integer() {
    assert_eq!(infer_type("42"), "integer");
    assert_eq!(infer_type("-7"), "integer");
    assert_eq!(infer_type("+7"), "integer");
    assert_eq!(infer_type("007"), "integer");
}

#[test]
fn i64_range_limits() {
    assert!(parses_as_i64("9223372036854775807"));
    assert!(!parses_as_i64("9223372036854775808"));
    assert!(parses_as_i64("-9223372036854775808"));
    assert!(!parses_as_i64("-9223372036854775809"));
    assert_eq!(infer_type("9223372036854775808"), "float");
}

#[test]
fn i64_rejects_malformed() {
    assert!(!parses_as_i64(""));
    assert!(!parses_as_i64("-"));
    assert!(!parses_as_i64("+"));
    assert!(!parses_as_i64("1 "));
    assert!(!parses_as_i64("1.0"));
    assert!(!parses_as_i64("+-1"));
}

#[test]
fn i64_agrees_with_std() {
    for s in ["0", "-0", "+12", "12a", "", "-", "99999999999999999999", "-9223372036854775808", " 1"] {
        assert_eq!(parses_as_i64(s), s.parse::<i64>().is_ok(), "{}", s);
    }
}

#[test]
fn floats_are_float() {
    assert_eq!(infer_type("3.14"), "float");
    assert_eq!(infer_type("1e10"), "float");
    assert_eq!(infer_type(".5"), "float");
    assert_eq!(infer_type("5."), "float");
    assert_eq!(infer_type("-1.5E-3"), "float");
    assert_eq!(infer_type("inf"), "float");
    assert_eq!(infer_type("-Infinity"), "float");
    assert_eq!(infer_type("NaN"), "float");
}

#[test]
fn f64_agrees_with_std() {
    let cases = [
        "1", "1.", ".1", ".", "1e", "e1", "1e+", "1e+5", "1E-5", "1.2.3", "1.e5", ".e5", "+.5", "-",
        "inf", "INF", "infinity", "InFiNiTy", "nan", "-nan", "+inf", "infx", "na", "1_000", " 1",
        "1 ", "0x10", "1e5e5", "--1", "", "abc",
    ];
    for s in cases {
        assert_eq!(parses_as_f64(s), s.parse::<f64>().is_ok(), "{}", s);
    }
}

#[test]
fn booleans_ignore_case() {
    assert_eq!(infer_type("true"), "boolean");
    assert_eq!(infer_type("FALSE"), "boolean");
    assert_eq!(infer_type("True"), "boolean");
    assert!(!parses_as_bool("yes"));
    assert!(!parses_as_bool("truee"));
}

#[test]
fn everything_else_is_string() {
    assert_eq!(infer_type("hello"), "string");
    assert_eq!(infer_type(""), "string");
    assert_eq!(infer_type("1,5"), "string");
    assert_eq!(classify("é"), ValueClass::Text);
}

#[test]
fn classify_order_integer_before_float() {
    assert_eq!(classify("10"), ValueClass::Integer);
    assert_eq!(classify("10.0"), ValueClass::Float);
    assert_eq!(classify("false"), ValueClass::Boolean);
}
