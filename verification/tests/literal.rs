use gitql_core::values::base::Value;
use nu_plugin_gitql::literal::{literal, push_literal};
use nu_plugin_gitql::text::{int_to_string, push_int};
use nu_plugin_gitql::validate::{seconds_fit_nanos, timestamp_in_calendar};
use nu_plugin_gitql::value::{ElementType, TypedValue};

#[test]
fn decimal_form_of_integers() {
    assert_eq!(int_to_string(0), "0");
    assert_eq!(int_to_string(7), "7");
    assert_eq!(int_to_string(10), "10");
    assert_eq!(int_to_string(-1), "-1");
    assert_eq!(int_to_string(1_234_567_890), "1234567890");
    assert_eq!(int_to_string(i64::MAX), "9223372036854775807");
    assert_eq!(int_to_string(i64::MIN), "-9223372036854775808");
}

#[test]
fn decimal_form_matches_the_standard_one() {
    for i in [-1000i64, -101, -100, -99, -10, -9, 9, 99, 100, 101, 1000, 65_536, -65_536] {
        assert_eq!(int_to_string(i), i.to_string());
    }
}

#[test]
fn push_int_appends_behind_what_is_there() {
    let mut buffer = String::from("n = ");
    push_int(&mut buffer, -305);
    assert_eq!(buffer, "n = -305");
    push_int(&mut buffer, 40);
    assert_eq!(buffer, "n = -30540");
}

#[test]
fn literal_of_scalars() {
    assert_eq!(literal(&TypedValue::Integer(-12)), "-12");
    assert_eq!(literal(&TypedValue::Text("some text".to_string())), "some text");
    assert_eq!(literal(&TypedValue::Boolean(true)), "true");
    assert_eq!(literal(&TypedValue::Boolean(false)), "false");
    assert_eq!(literal(&TypedValue::Time("08:15:00".to_string())), "08:15:00");
    assert_eq!(literal(&TypedValue::Null), "Null");
    assert_eq!(
        literal(&TypedValue::Float { bits: 3.14f64.to_bits(), text: "3.14".to_string() }),
        "3.14"
    );
}

#[test]
fn literal_of_dates_follows_the_calendar() {
    assert_eq!(literal(&TypedValue::Date(0)), "1970-01-01");
    assert_eq!(literal(&TypedValue::Date(86_399)), "1970-01-01");
    assert_eq!(literal(&TypedValue::Date(86_400)), "1970-01-02");
    assert_eq!(literal(&TypedValue::Date(-1)), "1969-12-31");
    assert_eq!(literal(&TypedValue::Date(1_431_648_000)), "2015-05-15");
}

#[test]
fn literal_of_date_times_follows_the_calendar() {
    assert_eq!(literal(&TypedValue::DateTime(0)), "1970-01-01 00:00:00.000");
    assert_eq!(literal(&TypedValue::DateTime(1_234_567_890)), "2009-02-13 23:31:30.000");
    assert_eq!(literal(&TypedValue::DateTime(-1)), "1969-12-31 23:59:59.000");
}

#[test]
fn literals_agree_with_the_engine() {
    for seconds in [0i64, 1, -1, 1_000_000_000, 253_402_300_799, -62_135_596_800] {
        let date = gitql_core::values::date::DateValue { value: seconds };
        assert_eq!(literal(&TypedValue::Date(seconds)), date.literal());
        let stamp = gitql_core::values::datetime::DateTimeValue { value: seconds };
        assert_eq!(literal(&TypedValue::DateTime(seconds)), stamp.literal());
    }
    for i in [0i64, -5, 77, i64::MIN, i64::MAX] {
        let int = gitql_core::values::integer::IntValue { value: i };
        assert_eq!(literal(&TypedValue::Integer(i)), int.literal());
    }
    for b in [true, false] {
        let boolean = gitql_core::values::boolean::BoolValue { value: b };
        assert_eq!(literal(&TypedValue::Boolean(b)), boolean.literal());
    }
    assert_eq!(literal(&TypedValue::Null), gitql_core::values::null::NullValue.literal());
}

#[test]
fn array_and_range_literals_agree_with_the_engine() {
    let engine_array = gitql_core::values::array::ArrayValue {
        values: vec![
            Box::new(gitql_core::values::integer::IntValue { value: 1 }),
            Box::new(gitql_core::values::integer::IntValue { value: 22 }),
            Box::new(gitql_core::values::integer::IntValue { value: -3 }),
        ],
        base_type: gitql_core::values::integer::IntValue { value: 0 }.data_type(),
    };
    let array = TypedValue::Array(
        ElementType::Integer,
        vec![TypedValue::Integer(1), TypedValue::Integer(22), TypedValue::Integer(-3)],
    );
    assert_eq!(literal(&array), engine_array.literal());
    assert_eq!(literal(&array), "[1, 22, -3]");
    let engine_range = gitql_core::values::range::RangeValue {
        start: Box::new(gitql_core::values::integer::IntValue { value: 1 }),
        end: Box::new(gitql_core::values::integer::IntValue { value: 10 }),
        base_type: gitql_core::values::integer::IntValue { value: 0 }.data_type(),
    };
    let range = TypedValue::Range(
        Box::new(TypedValue::Integer(1)),
        Box::new(TypedValue::Integer(10)),
    );
    assert_eq!(literal(&range), engine_range.literal());
}

#[test]
fn literal_of_arrays_and_ranges() {
    let single = TypedValue::Array(ElementType::Text, vec![TypedValue::Text("x".to_string())]);
    assert_eq!(literal(&single), "[x]");
    let empty = TypedValue::Array(ElementType::Text, vec![]);
    assert_eq!(literal(&empty), "[]");
    let nested = TypedValue::Range(
        Box::new(TypedValue::Date(0)),
        Box::new(TypedValue::DateTime(0)),
    );
    assert_eq!(literal(&nested), "1970-01-01..1970-01-01 00:00:00.000");
}

#[test]
fn push_literal_appends_behind_what_is_there() {
    let mut buffer = String::from("> ");
    push_literal(&mut buffer, &TypedValue::Boolean(true));
    push_literal(&mut buffer, &TypedValue::Integer(3));
    assert_eq!(buffer, "> true3");
}

#[test]
fn calendar_bounds_are_those_of_the_calendar() {
    let first = -8_334_601_228_800i64;
    let last = 8_210_266_876_799i64;
    assert!(chrono::DateTime::from_timestamp(first, 0).is_some());
    assert!(chrono::DateTime::from_timestamp(first - 1, 0).is_none());
    assert!(chrono::DateTime::from_timestamp(last, 0).is_some());
    assert!(chrono::DateTime::from_timestamp(last + 1, 0).is_none());
    assert!(timestamp_in_calendar(first));
    assert!(!timestamp_in_calendar(first - 1));
    assert!(timestamp_in_calendar(last));
    assert!(!timestamp_in_calendar(last + 1));
    assert_eq!(literal(&TypedValue::Date(first)), "-262143-01-01");
    assert_eq!(literal(&TypedValue::Date(last)), "+262142-12-31");
    assert_eq!(literal(&TypedValue::DateTime(last)), "+262142-12-31 23:59:59.000");
}

#[test]
fn seconds_that_fit_nanoseconds() {
    assert!(seconds_fit_nanos(0));
    assert!(seconds_fit_nanos(9_223_372_036));
    assert!(!seconds_fit_nanos(9_223_372_037));
    assert!(seconds_fit_nanos(-9_223_372_036));
    assert!(!seconds_fit_nanos(-9_223_372_037));
    assert!(9_223_372_036i64.checked_mul(1_000_000_000).is_some());
    assert!(9_223_372_037i64.checked_mul(1_000_000_000).is_none());
    assert!((-9_223_372_036i64).checked_mul(1_000_000_000).is_some());
    assert!((-9_223_372_037i64).checked_mul(1_000_000_000).is_none());
}
