use resp_kv::key_value_store::{
    normalize_index, InMemoryKeyValueStore, KeyValueStore, KeyValueStoreEntry,
    KeyValueStoreListEntry, KeyValueStoreStringEntry, StoreError,
};

fn list_of(values: &[&str]) -> KeyValueStoreListEntry {
    let mut list = KeyValueStoreListEntry::new();
    let mut values: Vec<Vec<u8>> = values.iter().map(|value| value.as_bytes().to_vec()).collect();
    list.append(&mut values);
    list
}

fn strings(values: &[Vec<u8>]) -> Vec<String> {
    values.iter().map(|value| String::from_utf8(value.clone()).unwrap()).collect()
}

fn string_entry(value: &str, expiry: Option<u128>) -> KeyValueStoreEntry {
    KeyValueStoreEntry::String(KeyValueStoreStringEntry { value: value.as_bytes().to_vec(), expiry })
}

#[test]
fn an_index_is_normalized() {
    assert_eq!(normalize_index(0, 5), 0);
    assert_eq!(normalize_index(3, 5), 3);
    assert_eq!(normalize_index(7, 5), 7);
    assert_eq!(normalize_index(-1, 5), 4);
    assert_eq!(normalize_index(-5, 5), 0);
    assert_eq!(normalize_index(-6, 5), 0);
    assert_eq!(normalize_index(-1, 0), 0);
    assert_eq!(normalize_index(isize::MIN, 5), 0);
    assert_eq!(normalize_index(isize::MAX, 5), isize::MAX as usize);
    assert_eq!(normalize_index(isize::MIN, usize::MAX), (usize::MAX - 1) / 2);
}

#[test]
fn a_new_list_is_empty() {
    let list = KeyValueStoreListEntry::new();
    assert_eq!(list.len(), 0);
    assert_eq!(list.get_expiry(), &None);
    assert!(list.get_subslice(0, -1).is_empty());
    let list = KeyValueStoreListEntry::_new_with_expiry(Some(5));
    assert_eq!(list.len(), 0);
    assert_eq!(list.get_expiry(), &Some(5));
}

#[test]
fn values_are_appended_in_order() {
    let mut list = KeyValueStoreListEntry::new();
    let mut values = vec![b"a".to_vec(), b"b".to_vec()];
    assert_eq!(list.append(&mut values), 2);
    assert!(values.is_empty());
    assert_eq!(list._push(b"c".to_vec()), 3);
    let mut more = vec![b"d".to_vec()];
    assert_eq!(list.append(&mut more), 4);
    assert_eq!(list.append(&mut Vec::new()), 4);
    assert_eq!(strings(list.get_subslice(0, -1)), ["a", "b", "c", "d"]);
}

#[test]
fn values_are_prepended_in_order() {
    let mut list = list_of(&["c", "d"]);
    assert_eq!(list.prepend(vec![b"a".to_vec(), b"b".to_vec()]), 4);
    assert_eq!(list.prepend(Vec::new()), 4);
    assert_eq!(strings(list.get_subslice(0, -1)), ["a", "b", "c", "d"]);
}

#[test]
fn the_head_is_popped() {
    let mut list = list_of(&["a", "b"]);
    assert_eq!(list.pop_front(), Some(b"a".to_vec()));
    assert_eq!(list.len(), 1);
    assert_eq!(list.pop_front(), Some(b"b".to_vec()));
    assert_eq!(list.pop_front(), None);
    assert_eq!(list.len(), 0);
}

#[test]
fn a_count_pops_no_more_than_there_is() {
    let mut list = list_of(&["a", "b", "c", "d"]);
    assert_eq!(strings(&list.pop_front_amount(0)), Vec::<String>::new());
    assert_eq!(strings(&list.pop_front_amount(1)), ["a"]);
    assert_eq!(strings(&list.pop_front_amount(2)), ["b", "c"]);
    assert_eq!(strings(list.get_subslice(0, -1)), ["d"]);
    assert_eq!(strings(&list.pop_front_amount(5)), ["d"]);
    assert_eq!(list.len(), 0);
    assert_eq!(strings(&list.pop_front_amount(usize::MAX)), Vec::<String>::new());
}

#[test]
fn a_range_counts_both_ends() {
    let list = list_of(&["a", "b", "c", "d", "e"]);
    assert_eq!(strings(list.get_subslice(0, 0)), ["a"]);
    assert_eq!(strings(list.get_subslice(1, 3)), ["b", "c", "d"]);
    assert_eq!(strings(list.get_subslice(0, 4)), ["a", "b", "c", "d", "e"]);
    assert_eq!(strings(list.get_subslice(4, 4)), ["e"]);
}

#[test]
fn a_negative_index_counts_from_the_tail() {
    let list = list_of(&["a", "b", "c", "d", "e"]);
    assert_eq!(strings(list.get_subslice(0, -1)), ["a", "b", "c", "d", "e"]);
    assert_eq!(strings(list.get_subslice(-2, -1)), ["d", "e"]);
    assert_eq!(strings(list.get_subslice(-3, 3)), ["c", "d"]);
    assert_eq!(strings(list.get_subslice(-5, -5)), ["a"]);
    // Below the head a negative index stops at the head.
    assert_eq!(strings(list.get_subslice(-100, 1)), ["a", "b"]);
    assert_eq!(strings(list.get_subslice(-100, -100)), ["a"]);
    assert_eq!(strings(list.get_subslice(isize::MIN, isize::MAX)), ["a", "b", "c", "d", "e"]);
}

#[test]
fn the_end_of_a_range_stops_at_the_tail() {
    let list = list_of(&["a", "b", "c"]);
    assert_eq!(strings(list.get_subslice(1, 100)), ["b", "c"]);
    assert_eq!(strings(list.get_subslice(2, 3)), ["c"]);
}

#[test]
fn a_range_that_ends_before_it_starts_is_empty() {
    let list = list_of(&["a", "b", "c"]);
    assert!(list.get_subslice(2, 1).is_empty());
    assert!(list.get_subslice(3, 5).is_empty());
    assert!(list.get_subslice(100, 200).is_empty());
    assert!(list.get_subslice(-1, -2).is_empty());
    assert!(list.get_subslice(1, 0).is_empty());
    assert!(list.get_subslice(isize::MAX, isize::MIN).is_empty());
}

#[test]
fn a_range_of_an_empty_list_is_empty() {
    let list = KeyValueStoreListEntry::new();
    assert!(list.get_subslice(0, 0).is_empty());
    assert!(list.get_subslice(0, -1).is_empty());
    assert!(list.get_subslice(-1, 0).is_empty());
    assert!(list.get_subslice(-3, 7).is_empty());
}

#[test]
fn a_string_entry_gives_its_value_and_expiry() {
    let entry = KeyValueStoreStringEntry { value: b"v".to_vec(), expiry: Some(9) };
    assert_eq!(entry.get_value(), &b"v".to_vec());
    assert_eq!(entry.get_expiry(), &Some(9));
    let entry = string_entry("v", None);
    assert_eq!(entry.get_value(), Ok(&b"v".to_vec()));
    assert_eq!(entry.get_expiry(), &None);
}

#[test]
fn a_string_entry_refuses_what_lists_do() {
    let mut entry = string_entry("v", None);
    assert_eq!(entry._push(b"a".to_vec()), Err(StoreError::WrongKind));
    let mut values = vec![b"a".to_vec()];
    assert_eq!(entry.append(&mut values), Err(StoreError::WrongKind));
    assert_eq!(values, vec![b"a".to_vec()]);
    assert_eq!(entry.prepend(vec![b"a".to_vec()]), Err(StoreError::WrongKind));
    assert_eq!(entry.pop_front(), Err(StoreError::WrongKind));
    assert_eq!(entry.pop_front_amount(1), Err(StoreError::WrongKind));
    assert_eq!(entry.get_subslice(0, -1), Err(StoreError::WrongKind));
    assert_eq!(entry.len(), Err(StoreError::WrongKind));
    assert_eq!(entry.generate_blpop_waiter().err(), Some(StoreError::WrongKind));
    assert_eq!(entry.get_value(), Ok(&b"v".to_vec()));
}

#[test]
fn a_list_entry_does_what_lists_do() {
    let mut entry = KeyValueStoreEntry::List(list_of(&["b"]));
    assert_eq!(entry.get_value(), Err(StoreError::WrongKind));
    assert_eq!(entry.get_expiry(), &None);
    assert_eq!(entry._push(b"c".to_vec()), Ok(2));
    assert_eq!(entry.append(&mut vec![b"d".to_vec()]), Ok(3));
    assert_eq!(entry.prepend(vec![b"a".to_vec()]), Ok(4));
    assert_eq!(entry.len(), Ok(4));
    assert_eq!(entry.get_subslice(1, 2).map(strings), Ok(vec!["b".to_string(), "c".to_string()]));
    assert_eq!(entry.pop_front(), Ok(Some(b"a".to_vec())));
    assert_eq!(entry.pop_front_amount(2), Ok(vec![b"b".to_vec(), b"c".to_vec()]));
    assert_eq!(entry.pop_front(), Ok(Some(b"d".to_vec())));
    assert_eq!(entry.pop_front(), Ok(None));
    assert!(entry.generate_blpop_waiter().is_ok());
}

#[test]
fn store_errors_have_messages() {
    assert_eq!(StoreError::NotFound.message(), "key not found");
    assert_eq!(StoreError::WrongKind.message(), "wrong kind for this operation");
}

#[test]
fn a_new_keyspace_holds_nothing() {
    let mut store = InMemoryKeyValueStore::new();
    assert!(store.get(b"k").is_none());
    assert!(store.get(b"").is_none());
    assert!(store.get_mut(b"k").is_none());
    assert!(store.remove(b"k").is_none());
}

#[test]
fn an_inserted_entry_is_found_under_its_key() {
    let mut store = InMemoryKeyValueStore::new();
    assert!(store.insert(b"a".to_vec(), string_entry("1", None)).is_none());
    assert!(store.insert(b"b".to_vec(), string_entry("2", Some(7))).is_none());
    assert!(store.insert(Vec::new(), string_entry("3", None)).is_none());
    assert_eq!(store.get(b"a").unwrap().get_value(), Ok(&b"1".to_vec()));
    assert_eq!(store.get(b"b").unwrap().get_value(), Ok(&b"2".to_vec()));
    assert_eq!(store.get(b"b").unwrap().get_expiry(), &Some(7));
    assert_eq!(store.get(b"").unwrap().get_value(), Ok(&b"3".to_vec()));
    assert!(store.get(b"c").is_none());
    assert!(store.get(b"A").is_none());
    assert!(store.get(b"ab").is_none());
}

#[test]
fn an_insert_replaces_the_entry_under_the_key() {
    let mut store = InMemoryKeyValueStore::new();
    store.insert(b"a".to_vec(), string_entry("1", None));
    store.insert(b"b".to_vec(), string_entry("2", None));
    let prior = store.insert(b"a".to_vec(), KeyValueStoreEntry::List(list_of(&["x"])));
    assert_eq!(prior.unwrap().get_value(), Ok(&b"1".to_vec()));
    assert_eq!(store.get(b"a").unwrap().len(), Ok(1));
    assert_eq!(store.get(b"b").unwrap().get_value(), Ok(&b"2".to_vec()));
    let prior = store.insert(b"a".to_vec(), string_entry("3", None));
    assert_eq!(prior.unwrap().len(), Ok(1));
    // The key is held once: removing it leaves nothing behind.
    assert!(store.remove(b"a").is_some());
    assert!(store.get(b"a").is_none());
}

#[test]
fn an_entry_is_changed_in_place() {
    let mut store = InMemoryKeyValueStore::new();
    store.insert(b"a".to_vec(), KeyValueStoreEntry::List(list_of(&["x"])));
    store.insert(b"b".to_vec(), KeyValueStoreEntry::List(list_of(&["y"])));
    assert_eq!(store.get_mut(b"b").unwrap()._push(b"z".to_vec()), Ok(2));
    assert_eq!(store.get(b"b").unwrap().len(), Ok(2));
    assert_eq!(store.get(b"a").unwrap().len(), Ok(1));
    assert_eq!(store.get_mut(b"a").unwrap().pop_front(), Ok(Some(b"x".to_vec())));
    assert_eq!(store.get(b"a").unwrap().len(), Ok(0));
}

#[test]
fn a_removed_entry_is_gone() {
    let mut store = InMemoryKeyValueStore::new();
    store.insert(b"a".to_vec(), string_entry("1", None));
    store.insert(b"b".to_vec(), string_entry("2", None));
    store.insert(b"c".to_vec(), string_entry("3", None));
    assert_eq!(store.remove(b"b").unwrap().get_value(), Ok(&b"2".to_vec()));
    assert!(store.get(b"b").is_none());
    assert!(store.remove(b"b").is_none());
    assert_eq!(store.get(b"a").unwrap().get_value(), Ok(&b"1".to_vec()));
    assert_eq!(store.get(b"c").unwrap().get_value(), Ok(&b"3".to_vec()));
    assert!(store.insert(b"b".to_vec(), string_entry("4", None)).is_none());
    assert_eq!(store.get(b"b").unwrap().get_value(), Ok(&b"4".to_vec()));
}
