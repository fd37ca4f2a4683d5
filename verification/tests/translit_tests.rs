use libcamera_cgen::translit::to_const_name;
use libcamera_cgen::translit::to_enum_name;
use libcamera_cgen::translit::to_type_name;

#[test]
fn snake_plain_pascal() {
    assert_eq!(to_type_name("ExampleName"), "example_name");
}

#[test]
fn shout_plain_pascal() {
    assert_eq!(to_const_name("ExampleName"), "EXAMPLE_NAME");
}

#[test]
fn snake_acronym_preserved() {
    assert_eq!(to_type_name("HTTPServer"), "http_server");
}

#[test]
fn snake_digit_boundary() {
    assert_eq!(to_type_name("Abc123Def"), "abc_123def");
}

#[test]
fn snake_camel_case() {
    assert_eq!(to_type_name("exampleName"), "example_name");
}

#[test]
fn snake_single_letter() {
    assert_eq!(to_type_name("A"), "a");
}

#[test]
fn snake_leading_digits() {
    assert_eq!(to_type_name("123Abc"), "123abc");
}

#[test]
fn snake_acronym_then_digit() {
    assert_eq!(to_type_name("HTTP2Server"), "http_2server");
}

#[test]
fn snake_idempotent_without_digits() {
    let once = to_type_name("ExampleName");
    assert_eq!(to_type_name(&once), once);
}

#[test]
fn snake_second_pass_splits_digit_run_again() {
    let once = to_type_name("Abc123Def");
    assert_eq!(once, "abc_123def");
    assert_eq!(to_type_name(&once), "abc__123def");
}

#[test]
fn snake_no_uppercase_no_leading_separator() {
    for name in ["AeEnable", "HTTPServer", "Abc123Def", "ExampleName", "A"] {
        let snake = to_type_name(name);
        assert!(!snake.is_empty());
        assert!(!snake.starts_with('_'));
        assert!(!snake.chars().any(|c| c.is_ascii_uppercase()));
    }
}

#[test]
fn enum_name_prefixed() {
    assert_eq!(to_enum_name("AeEnable"), "LIBCAMERA_CONTROL_ID_AE_ENABLE");
}

#[test]
fn non_ascii_passes_through() {
    assert_eq!(to_type_name("Foo\u{e9}Bar"), "foo\u{e9}_bar");
}
