use pixui::type_map::{TypeKey, TypeMap};

struct Alpha;
struct Beta;

#[test]
fn insert_and_get_use_the_requested_type() {
    let mut map = TypeMap::new();

    map.insert::<Alpha>("alpha");
    map.insert::<Beta>("beta");

    assert_eq!(map.get::<Alpha>(), Some(&"alpha"));
    assert_eq!(map.get::<Beta>(), Some(&"beta"));
    assert_eq!(map.len(), 2);
}

#[test]
fn insert_replaces_existing_values_without_changing_the_key() {
    let mut map = TypeMap::new();

    let first_key = map.insert::<Alpha>("before");
    let second_key = map.insert::<Alpha>("after");

    assert_eq!(first_key, second_key, "keys should stay stable");
    assert_eq!(map.get::<Alpha>(), Some(&"after"));
    assert_eq!(map.len(), 1);
}

#[test]
fn get_mut_updates_values_in_place() {
    let mut map = TypeMap::new();
    map.insert::<Alpha>(String::from("alpha"));

    map.get_mut::<Alpha>().unwrap().push_str("-updated");

    assert_eq!(
        map.get::<Alpha>().map(String::as_str),
        Some("alpha-updated")
    );
}

#[test]
fn get_by_key_reads_the_same_entry_as_type_lookup() {
    let mut map = TypeMap::new();
    let alpha_key = map.insert::<Alpha>(41_u32);

    *map.get_by_key_mut(alpha_key).unwrap() += 1;

    assert_eq!(map.get_by_key(alpha_key), Some(&42));
    assert_eq!(map.get::<Alpha>(), Some(&42));
}

#[test]
fn missing_types_return_none() {
    let mut map = TypeMap::<u32>::new();
    map.insert::<Alpha>(1);

    assert!(!map.is_empty());
    assert!(map.contains::<Alpha>());
    assert!(!map.contains::<Beta>());
    assert_eq!(map.key::<Beta>(), None);
    assert_eq!(map.get::<Beta>(), None);
}

#[test]
fn type_key_debug_and_display_use_the_underlying_index() {
    let mut map = TypeMap::new();
    let alpha_key = map.insert::<Alpha>(10_u32);

    assert_eq!(alpha_key.index(), 0);
    assert_eq!(alpha_key.to_string(), "0");
    assert!(format!("{alpha_key:?}").contains("0"));
}

#[test]
fn get_or_insert_default_inserts_when_missing() {
    let mut map = TypeMap::<String>::new();

    let value = map.get_or_insert_default::<Alpha>();

    assert_eq!(value, "");
    assert_eq!(map.get::<Alpha>().map(String::as_str), Some(""));
    assert_eq!(map.len(), 1);
}

#[test]
fn get_or_insert_default_does_not_replace_existing_values() {
    let mut map = TypeMap::<String>::new();
    map.insert::<Alpha>("kept".into());

    let value = map.get_or_insert_default::<Alpha>();

    assert_eq!(value, "kept");
    assert_eq!(map.len(), 1);
}

#[test]
fn get_or_insert_default_mut_returns_mutable_access() {
    let mut map = TypeMap::<Vec<u32>>::new();

    map.get_or_insert_default_mut::<Alpha>().push(42);

    assert_eq!(map.get::<Alpha>(), Some(&vec![42]));
}

#[test]
fn get_or_insert_default_with_key_variants_return_the_stable_key() {
    let mut map = TypeMap::<String>::new();

    let (first_key, first_value) = map.get_or_insert_default_with_key::<Alpha>();
    assert_eq!(first_key.index(), 0);
    assert_eq!(first_value, "");

    let (second_key, second_value) = map.get_or_insert_default_with_key_mut::<Alpha>();
    second_value.push_str("value");

    assert_eq!(first_key, second_key);
    assert_eq!(
        map.get_by_key(second_key).map(String::as_str),
        Some("value")
    );
}

#[test]
fn keys_of_distinct_types_are_distinct_and_dense() {
    let mut map = TypeMap::<u32>::new();
    let alpha = map.insert::<Alpha>(1);
    let beta = map.insert::<Beta>(2);

    assert_eq!(alpha.index(), 0);
    assert_eq!(beta.index(), 1);
    assert_ne!(alpha, beta);
    assert_eq!(map.get_by_key(beta), Some(&2));
    assert_eq!(map.get_by_key(pixui::type_map::TypeKey::from_index(2)), None);
}

#[test]
fn type_keys_convert_to_and_from_indices() {
    let key: TypeKey<u8> = TypeKey::from(4usize);
    assert_eq!(usize::from(key), 4);
    assert_eq!(key.index(), 4);
}
