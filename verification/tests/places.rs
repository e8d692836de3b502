use sqlx_core::error::Error;
use sqlx_error::decimal::push_decimal;
use sqlx_error::location::Location;
use sqlx_error::SqlxError;

fn written(n: u32) -> String {
    let mut out = String::new();
    push_decimal(&mut out, n);
    out
}

#[test]
fn single_digits_are_written_as_one_character() {
    assert_eq!(written(0), "0");
    assert_eq!(written(1), "1");
    assert_eq!(written(2), "2");
    assert_eq!(written(3), "3");
    assert_eq!(written(4), "4");
    assert_eq!(written(5), "5");
    assert_eq!(written(6), "6");
    assert_eq!(written(7), "7");
    assert_eq!(written(8), "8");
    assert_eq!(written(9), "9");
}

#[test]
fn numbers_are_written_from_the_highest_digit() {
    assert_eq!(written(10), "10");
    assert_eq!(written(43), "43");
    assert_eq!(written(100), "100");
    assert_eq!(written(9087), "9087");
    assert_eq!(written(u32::MAX), "4294967295");
}

#[test]
fn written_numbers_agree_with_the_standard_form() {
    for n in [0u32, 7, 19, 20, 99, 101, 1000, 65535, 65536, 999_999_999, 1_000_000_000] {
        assert_eq!(written(n), n.to_string());
    }
}

#[test]
fn a_number_is_appended_to_what_is_there() {
    let mut out = String::from("src/lib.rs:");
    push_decimal(&mut out, 15);
    assert_eq!(out, "src/lib.rs:15");
    out.push(':');
    push_decimal(&mut out, 43);
    assert_eq!(out, "src/lib.rs:15:43");
}

#[test]
fn distinct_functions_have_distinct_detailed_locations() {
    let first = Location::capture_at("app::foo::{{closure}}", "src/a.rs", 3, 5).text();
    let second = Location::capture_at("app::bar::{{closure}}", "src/a.rs", 3, 5).text();
    assert_ne!(first, second);
}

#[test]
fn distinct_positions_have_distinct_detailed_locations() {
    let first = Location::capture_at("app::foo", "src/a.rs", 1, 23).text();
    let second = Location::capture_at("app::foo", "src/a.rs", 12, 3).text();
    let third = Location::capture_at("app::foo", "src/a.rs", 1, 24).text();
    assert_eq!(first, "app::foo, src/a.rs:1:23");
    assert_eq!(second, "app::foo, src/a.rs:12:3");
    assert_ne!(first, second);
    assert_ne!(first, third);
}

#[test]
fn a_comma_in_a_file_name_can_hide_the_function() {
    let first = Location::capture_at("a", "b, c.rs", 1, 1).text();
    let second = Location::capture_at("a, b", "c.rs", 1, 1).text();
    assert_eq!(first, second);
}

#[test]
fn detailed_scope_holds_no_marker() {
    let text = Location::capture_at("app::foo::{{closure}}::{{closure}}", "src/a.rs", 8, 2).text();
    assert_eq!(text, "app::foo, src/a.rs:8:2");
}

#[test]
fn detailed_annotation_keeps_the_cause() {
    let location = Location::capture_at("app::foo", "src/a.rs", 8, 2);
    let wrapped = SqlxError::annotate_with(Error::PoolClosed, &location, "closing");
    assert!(matches!(wrapped.source(), Some(Error::PoolClosed)));
    assert_eq!(wrapped.source().unwrap().to_string(), Error::PoolClosed.to_string());
}

#[test]
fn empty_description_leaves_the_separator() {
    let plain = SqlxError::annotate_with(Error::RowNotFound, &Location::capture("app::foo"), "");
    assert_eq!(plain.to_string(), "sqlx app::foo ");
    let detailed = SqlxError::annotate_with(
        Error::RowNotFound,
        &Location::capture_at("app::foo", "a.rs", 1, 2),
        "",
    );
    assert_eq!(detailed.to_string(), "sqlx app::foo, a.rs:1:2, ");
}

#[test]
fn any_failure_type_can_be_annotated() {
    let wrapped = SqlxError::annotate(404u16, &Location::capture("app::fetch"));
    assert_eq!(wrapped.to_string(), "sqlx app::fetch");
    assert_eq!(wrapped.source(), Some(&404u16));
}
