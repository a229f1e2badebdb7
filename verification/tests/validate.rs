use nu_plugin_gitql::result_set::{Group, ResultSet, Row};
use nu_plugin_gitql::value::{ElementType, TypedValue};

fn ints(values: &[i64]) -> Vec<TypedValue> {
    values.iter().map(|i| TypedValue::Integer(*i)).collect()
}

#[test]
fn element_types_admit_their_kind() {
    assert!(ElementType::Integer.admits_value(&TypedValue::Integer(1)));
    assert!(!ElementType::Integer.admits_value(&TypedValue::Boolean(true)));
    assert!(ElementType::Text.admits_value(&TypedValue::Text(String::new())));
    assert!(!ElementType::Text.admits_value(&TypedValue::Time(String::new())));
    assert!(ElementType::Null.admits_value(&TypedValue::Null));
    assert!(!ElementType::Null.admits_value(&TypedValue::Integer(0)));
    assert!(ElementType::Array.admits_value(&TypedValue::Array(ElementType::Text, vec![])));
    assert!(ElementType::Variant.admits_value(&TypedValue::Null));
    assert!(ElementType::Dynamic.admits_value(&TypedValue::Integer(0)));
}

#[test]
fn unimplemented_element_types() {
    assert!(ElementType::Undefined.unimplemented());
    assert!(ElementType::Any.unimplemented());
    assert!(ElementType::Null.unimplemented());
    assert!(!ElementType::Integer.unimplemented());
    assert!(!ElementType::Dynamic.unimplemented());
    assert!(ElementType::Text.rendered_as_text());
    assert!(ElementType::Varargs.rendered_as_text());
    assert!(!ElementType::Integer.rendered_as_text());
    assert!(!ElementType::Any.rendered_as_text());
}

#[test]
fn arrays_must_hold_what_they_declare() {
    assert!(TypedValue::Array(ElementType::Integer, ints(&[1, 2])).is_wf());
    let mixed = TypedValue::Array(
        ElementType::Integer,
        vec![TypedValue::Integer(1), TypedValue::Text("two".to_string())],
    );
    assert!(!mixed.is_wf());
    assert!(!mixed.is_renderable());
    let deep = TypedValue::Range(Box::new(TypedValue::Integer(0)), Box::new(mixed));
    assert!(!deep.is_wf());
}

#[test]
fn arrays_of_unimplemented_types_cannot_be_rendered() {
    for element_type in [ElementType::Undefined, ElementType::Any, ElementType::Null] {
        assert!(!TypedValue::Array(element_type, vec![]).is_renderable());
    }
    assert!(TypedValue::Array(ElementType::Integer, vec![]).is_renderable());
}

#[test]
fn dates_outside_the_calendar_have_no_text() {
    assert!(TypedValue::Date(0).has_text_form());
    assert!(!TypedValue::Date(i64::MAX).has_text_form());
    assert!(!TypedValue::DateTime(i64::MIN).has_text_form());
    assert!(TypedValue::Date(i64::MAX).is_renderable());
    let array = TypedValue::Array(ElementType::Date, vec![TypedValue::Date(i64::MAX)]);
    assert!(array.is_wf());
    assert!(!array.has_text_form());
    assert!(!array.is_renderable());
    let range =
        TypedValue::Range(Box::new(TypedValue::Date(0)), Box::new(TypedValue::Date(i64::MIN)));
    assert!(!range.is_renderable());
}

#[test]
fn date_times_must_fit_nanoseconds() {
    assert!(TypedValue::DateTime(9_223_372_036).is_renderable());
    assert!(!TypedValue::DateTime(9_223_372_037).is_renderable());
    assert!(TypedValue::DateTime(9_223_372_037).has_text_form());
}

#[test]
fn rows_must_match_the_titles() {
    let row = Row { values: ints(&[1, 2, 3]) };
    assert!(row.is_renderable(1, 2));
    assert!(row.is_renderable(0, 3));
    assert!(row.is_renderable(3, 0));
    assert!(!row.is_renderable(0, 2));
    assert!(!row.is_renderable(2, 2));
    assert!(!row.is_renderable(4, 0));
}

#[test]
fn result_set_is_renderable_when_every_row_is() {
    let good = ResultSet {
        titles: vec!["a".to_string()],
        groups: vec![
            Group { rows: vec![Row { values: ints(&[1]) }] },
            Group { rows: vec![] },
            Group { rows: vec![Row { values: ints(&[2]) }, Row { values: ints(&[3]) }] },
        ],
        hidden: 0,
    };
    assert!(good.is_renderable());
    let short_row = ResultSet {
        titles: vec!["a".to_string()],
        groups: vec![
            Group { rows: vec![Row { values: ints(&[1]) }] },
            Group { rows: vec![Row { values: ints(&[2]) }, Row { values: vec![] }] },
        ],
        hidden: 0,
    };
    assert!(!short_row.is_renderable());
    let empty = ResultSet { titles: vec![], groups: vec![], hidden: 3 };
    assert!(empty.is_renderable());
}

#[test]
fn flat_collapses_groups_and_keeps_titles() {
    let mut set = ResultSet {
        titles: vec!["a".to_string()],
        groups: vec![
            Group { rows: vec![Row { values: ints(&[1]) }] },
            Group { rows: vec![Row { values: ints(&[2]) }, Row { values: ints(&[3]) }] },
        ],
        hidden: 0,
    };
    assert_eq!(set.len(), 2);
    assert!(!set.is_empty());
    set.flat();
    assert_eq!(set.len(), 1);
    assert_eq!(set.groups[0].len(), 3);
    assert!(!set.groups[0].is_empty());
    assert_eq!(
        set.groups[0].rows,
        vec![Row { values: ints(&[1]) }, Row { values: ints(&[2]) }, Row { values: ints(&[3]) }]
    );
    assert_eq!(set.titles, vec!["a".to_string()]);
    assert_eq!(set.hidden, 0);
}

#[test]
fn flat_of_no_groups_is_one_empty_group() {
    let mut set = ResultSet { titles: vec![], groups: vec![], hidden: 0 };
    assert!(set.is_empty());
    set.flat();
    assert_eq!(set.groups, vec![Group { rows: vec![] }]);
}

#[test]
fn result_set_invariant() {
    let good = ResultSet {
        titles: vec!["a".to_string()],
        groups: vec![Group { rows: vec![Row { values: ints(&[9, 1]) }] }, Group { rows: vec![] }],
        hidden: 1,
    };
    assert!(good.is_wf());
    let wrong_width = ResultSet {
        titles: vec!["a".to_string()],
        groups: vec![Group { rows: vec![Row { values: ints(&[9, 1]) }] }],
        hidden: 0,
    };
    assert!(!wrong_width.is_wf());
    let ill_formed_hidden_cell = ResultSet {
        titles: vec!["a".to_string()],
        groups: vec![Group {
            rows: vec![Row {
                values: vec![
                    TypedValue::Array(ElementType::Text, ints(&[1])),
                    TypedValue::Integer(1),
                ],
            }],
        }],
        hidden: 1,
    };
    assert!(!ill_formed_hidden_cell.is_wf());
    assert!(ill_formed_hidden_cell.is_renderable());
}
