use kalba::naming::{decimal_text, language_with_number, unused_language_name};
use kalba::str_map::StrMap;

fn map_of(keys: &[&str]) -> StrMap<u32> {
    let mut m = StrMap::new();
    for (i, k) in keys.iter().enumerate() {
        m.insert(k.to_string(), i as u32);
    }
    m
}

#[test]
fn decimal_text_writes_numbers() {
    assert_eq!(decimal_text(0), "0");
    assert_eq!(decimal_text(7), "7");
    assert_eq!(decimal_text(10), "10");
    assert_eq!(decimal_text(2024), "2024");
    assert_eq!(decimal_text(u32::MAX), "4294967295");
}

#[test]
fn numbered_names_have_a_space_and_the_number() {
    assert_eq!(language_with_number(&"german".to_string(), 2), "german 2");
    assert_eq!(language_with_number(&"".to_string(), 13), " 13");
}

#[test]
fn free_name_is_kept() {
    let m = map_of(&["french", "german 2"]);
    assert_eq!(unused_language_name(&m, &"german".to_string()), "german");
}

#[test]
fn taken_name_gets_smallest_free_number() {
    let m = map_of(&["german", "german 2", "german 3", "german 5"]);
    assert_eq!(unused_language_name(&m, &"german".to_string()), "german 4");
    let m = map_of(&["german"]);
    assert_eq!(unused_language_name(&m, &"german".to_string()), "german 2");
}

#[test]
fn chosen_names_are_distinct_when_added_in_turn() {
    let mut m = map_of(&[]);
    let mut names = Vec::new();
    for _ in 0..4 {
        let n = unused_language_name(&m, &"latin".to_string());
        m.insert(n.clone(), 0);
        names.push(n);
    }
    assert_eq!(names, vec!["latin", "latin 2", "latin 3", "latin 4"]);
}

#[test]
fn str_map_insert_replaces_and_keeps_order() {
    let mut m = map_of(&["a", "b", "c"]);
    m.insert("b".to_string(), 42);
    assert_eq!(m.len(), 3);
    assert_eq!(m.get(&"b".to_string()), Some(&42));
    assert_eq!(m.keys(), vec!["a", "b", "c"]);
    m.insert("d".to_string(), 5);
    assert_eq!(m.key_at(3), "d");
    assert_eq!(*m.value_at(3), 5);
    assert!(m.contains_key(&"d".to_string()));
    assert!(!m.contains_key(&"e".to_string()));
    assert_eq!(m.get(&"e".to_string()), None);
}

#[test]
fn str_map_insert_if_absent_keeps_existing() {
    let mut m = map_of(&["a"]);
    m.insert_if_absent("a".to_string(), 9);
    assert_eq!(m.get(&"a".to_string()), Some(&0));
    m.insert_if_absent("z".to_string(), 9);
    assert_eq!(m.get(&"z".to_string()), Some(&9));
}

#[test]
fn str_map_modify_changes_one_value() {
    let mut m = map_of(&["a", "b"]);
    m.modify(&"b".to_string(), |v| v + 10);
    assert_eq!(m.get(&"b".to_string()), Some(&11));
    assert_eq!(m.get(&"a".to_string()), Some(&0));
    assert_eq!(m.keys(), vec!["a", "b"]);
}

#[test]
fn str_map_retain_keeps_order_of_rest() {
    let mut m = map_of(&["a", "b", "c", "d", "e"]);
    m.retain(|v| v % 2 == 0);
    assert_eq!(m.keys(), vec!["a", "c", "e"]);
    assert_eq!(m.get(&"c".to_string()), Some(&2));
    assert_eq!(m.len(), 3);
    let mut m = map_of(&["a", "b"]);
    m.retain(|_| false);
    assert_eq!(m.len(), 0);
}
