//! Checks of the HTTP helpers: method parsing with its GET fallback, string
//! comparison, and decimal rendering.

use api_check::http::{parse_method, str_eq, u64_to_decimal, HttpMethod};

#[test]
fn test_parse_known_methods() {
    assert_eq!(parse_method("GET"), HttpMethod::Get);
    assert_eq!(parse_method("POST"), HttpMethod::Post);
    assert_eq!(parse_method("PUT"), HttpMethod::Put);
    assert_eq!(parse_method("DELETE"), HttpMethod::Delete);
    assert_eq!(parse_method("PATCH"), HttpMethod::Patch);
    assert_eq!(parse_method("HEAD"), HttpMethod::Head);
    assert_eq!(parse_method("OPTIONS"), HttpMethod::Options);
}

#[test]
fn test_parse_method_fallback() {
    // A malformed method name falls back to GET rather than failing.
    assert_eq!(parse_method("NOT-A-METHOD"), HttpMethod::Get);
    assert_eq!(parse_method(""), HttpMethod::Get);
    assert_eq!(parse_method("get"), HttpMethod::Get);
}

#[test]
fn test_method_names_round_trip() {
    for method in [
        HttpMethod::Get,
        HttpMethod::Post,
        HttpMethod::Put,
        HttpMethod::Delete,
        HttpMethod::Patch,
        HttpMethod::Head,
        HttpMethod::Options,
    ] {
        assert_eq!(parse_method(method.as_str()), method);
    }
}

#[test]
fn test_str_eq() {
    assert!(str_eq("", ""));
    assert!(str_eq("abc", "abc"));
    assert!(!str_eq("abc", "abd"));
    assert!(!str_eq("abc", "ab"));
}

#[test]
fn test_u64_to_decimal() {
    assert_eq!(u64_to_decimal(0), "0");
    assert_eq!(u64_to_decimal(7), "7");
    assert_eq!(u64_to_decimal(3000), "3000");
    assert_eq!(u64_to_decimal(65535), "65535");
    assert_eq!(u64_to_decimal(18446744073709551615), "18446744073709551615");
}
