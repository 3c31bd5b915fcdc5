use functor_derive_lib::interpret::Value;
use functor_derive_lib::registry::{find, standard, ContainerKind};
use functor_derive_lib::text::{decimal, join};
use functor_derive_lib::ty::{contains_text, copy_texts};

fn strings(items: &[&str]) -> Vec<String> {
    items.iter().map(|item| item.to_string()).collect()
}

#[test]
fn decimal_writes_numerals_without_leading_zeros() {
    assert_eq!(decimal(0), "0");
    assert_eq!(decimal(7), "7");
    assert_eq!(decimal(9), "9");
    assert_eq!(decimal(10), "10");
    assert_eq!(decimal(11), "11");
    assert_eq!(decimal(109), "109");
    assert_eq!(decimal(1234567890), "1234567890");
    assert_eq!(decimal(usize::MAX), usize::MAX.to_string());
}

#[test]
fn join_puts_the_separator_between_neighbours_only() {
    assert_eq!(join(&strings(&[]), ", "), "");
    assert_eq!(join(&strings(&["a"]), ", "), "a");
    assert_eq!(join(&strings(&["a", "b"]), ", "), "a, b");
    assert_eq!(join(&strings(&["a", "", "c"]), "::"), "a::::c");
    assert_eq!(join(&strings(&["", "std", "vec"]), "::"), "::std::vec");
    assert_eq!(join(&strings(&["a", "b", "c"]), ""), "abc");
}

#[test]
fn a_text_is_found_only_where_it_stands_whole() {
    let items = strings(&["A", "Bee", ""]);
    assert!(contains_text(&items, &"A".to_string()));
    assert!(contains_text(&items, &"Bee".to_string()));
    assert!(contains_text(&items, &"".to_string()));
    assert!(!contains_text(&items, &"B".to_string()));
    assert!(!contains_text(&items, &"a".to_string()));
    assert!(!contains_text(&strings(&[]), &"A".to_string()));
    assert_eq!(copy_texts(&items), items);
}

#[test]
fn the_table_is_searched_by_name_and_arity() {
    let rows = standard();
    assert_eq!(rows.len(), 7);
    for row in &rows {
        assert!(row.mapped < row.arity);
        assert_eq!(find(&rows, &row.name, row.arity), Some((row.kind, row.mapped)));
    }
    assert_eq!(find(&rows, &"HashMap".to_string(), 2), Some((ContainerKind::HashMap, 1)));
    assert_eq!(find(&rows, &"HashMap".to_string(), 1), None);
    assert_eq!(find(&Vec::new(), &"Vec".to_string(), 1), None);
}

#[test]
fn a_copy_of_a_value_is_equal_to_it() {
    let value = Value::Tuple(vec![
        Value::Scalar(1),
        Value::Coll { keys: vec![Value::Scalar(2)], items: vec![Value::Marker, Value::Tuple(vec![])] },
    ]);
    assert_eq!(value.duplicate(), value);
    assert_eq!(Value::Marker.duplicate(), Value::Marker);
}
