use mize::item::{data_from_string, get_raw_from_cbor, item_data_get_path, item_data_set_path, IntoItemData, ItemData};
use mize::value::{order_values, values_equal, CborValue, Order};
use mize::memstore::MemStore;
use mize::id::{id_from_string, id_from_vec_string, MizeId, Namespace};
use mize::proto::{MessageCmd, MizeMessage};
use mize::error::MizeError;

fn text(s: &str) -> CborValue {
    CborValue::Text(s.to_owned())
}

fn map(entries: Vec<(&str, CborValue)>) -> CborValue {
    CborValue::Mapping(entries.into_iter().map(|(k, v)| (text(k), v)).collect())
}

fn steps(v: &[&str]) -> Vec<String> {
    v.iter().map(|s| s.to_string()).collect()
}

#[test]
fn a_value_set_at_a_path_is_read_back_there() {
    let mut d = map(vec![("a", map(vec![("b", text("old"))]))]);
    item_data_set_path(&mut d, steps(&["a", "b"]), &text("new")).unwrap();
    assert!(values_equal(&item_data_get_path(&d, steps(&["a", "b"])).unwrap(), &text("new")));
    let mut n = CborValue::Null;
    item_data_set_path(&mut n, steps(&["x", "y"]), &text("v")).unwrap();
    assert!(values_equal(&n, &map(vec![("x", map(vec![("y", text("v"))]))])));
}

#[test]
fn a_missing_key_is_appended_with_the_value_itself() {
    let mut d = map(vec![("a", text("1"))]);
    item_data_set_path(&mut d, steps(&["b", "c"]), &text("v")).unwrap();
    assert!(values_equal(&d, &map(vec![("a", text("1")), ("b", text("v"))])));
}

#[test]
fn setting_through_a_text_fails_and_changes_nothing() {
    let mut d = map(vec![("a", text("1"))]);
    assert!(item_data_set_path(&mut d, steps(&["a", "b"]), &text("v")).is_err());
    assert!(values_equal(&d, &map(vec![("a", text("1"))])));
}

#[test]
fn get_path_reads_the_last_entry_and_null_for_missing() {
    let d = CborValue::Mapping(vec![(text("k"), text("first")), (text("k"), text("second"))]);
    assert!(values_equal(&item_data_get_path(&d, steps(&["k"])).unwrap(), &text("second")));
    assert!(values_equal(&item_data_get_path(&d, steps(&["z"])).unwrap(), &CborValue::Null));
    assert!(item_data_get_path(&d, steps(&["z", "y"])).is_err());
    assert!(item_data_get_path(&text("t"), steps(&["z"])).is_err());
}

#[test]
fn merging_null_changes_nothing_and_merging_into_null_gives_the_value() {
    let mut d = ItemData::from_cbor(map(vec![("a", text("1"))]));
    d.merge(ItemData::new());
    assert_eq!(d, ItemData::from_cbor(map(vec![("a", text("1"))])));
    let mut n = ItemData::new();
    n.merge(ItemData::from_string("x"));
    assert_eq!(n, ItemData::from_string("x"));
}

#[test]
fn merging_works_key_by_key() {
    let mut d = ItemData::from_cbor(map(vec![("a", text("1")), ("b", map(vec![("c", text("2"))]))]));
    d.merge(ItemData::from_cbor(map(vec![("b", map(vec![("d", text("3"))])), ("e", text("4"))])));
    assert_eq!(d.get_path("a").unwrap(), ItemData::from_string("1"));
    assert_eq!(d.get_path("b/c").unwrap(), ItemData::from_string("2"));
    assert_eq!(d.get_path("b/d").unwrap(), ItemData::from_string("3"));
    assert_eq!(d.get_path("e").unwrap(), ItemData::from_string("4"));
    // the merged entries move to the end
    assert_eq!(
        d,
        ItemData::from_cbor(map(vec![
            ("a", text("1")),
            ("b", map(vec![("c", text("2")), ("d", text("3"))])),
            ("e", text("4")),
        ]))
    );
}

#[test]
fn parse_reads_false_and_numbers_but_not_true() {
    assert_eq!(ItemData::parse("false"), ItemData::from_cbor(CborValue::Bool(false)));
    assert_eq!(ItemData::parse("true"), ItemData::from_string("true"));
    assert_eq!(ItemData::parse("42"), ItemData::from_cbor(CborValue::Integer(42)));
    assert_eq!(ItemData::parse("-7"), ItemData::from_cbor(CborValue::Integer(-7)));
    assert_eq!(ItemData::parse("4x"), ItemData::from_string("4x"));
}

#[test]
fn config_strings_become_data() {
    assert_eq!(data_from_string("plain".to_owned()).unwrap(), ItemData::from_string("plain"));
    let d = data_from_string("a.b=1:c=x".to_owned()).unwrap();
    assert_eq!(d.get_path("a/b").unwrap(), ItemData::from_cbor(CborValue::Integer(1)));
    assert_eq!(d.get_path("c").unwrap(), ItemData::from_string("x"));
    assert!(data_from_string("a=1:b".to_owned()).is_err());
}

#[test]
fn sort_keys_orders_the_keys_of_every_mapping() {
    let mut d = ItemData::from_cbor(map(vec![("b", text("2")), ("a", map(vec![("z", text("3")), ("y", text("4"))]))]));
    d.sort_keys().unwrap();
    assert_eq!(
        d,
        ItemData::from_cbor(map(vec![("a", map(vec![("y", text("4")), ("z", text("3"))])), ("b", text("2"))]))
    );
}

#[test]
fn values_are_ordered_by_kind_then_content() {
    assert_eq!(order_values(&CborValue::Integer(1), &CborValue::Integer(2)), Order::Less);
    assert_eq!(order_values(&text("b"), &text("a")), Order::Greater);
    assert_eq!(order_values(&text("a"), &text("a")), Order::Equal);
}

#[test]
fn raw_bytes_of_texts_and_byte_strings() {
    let d = map(vec![("t", text("hé")), ("b", CborValue::Bytes(vec![1, 2]))]);
    assert_eq!(get_raw_from_cbor(&d, &steps(&["t"])).unwrap(), "hé".as_bytes().to_vec());
    assert_eq!(get_raw_from_cbor(&d, &steps(&["b"])).unwrap(), vec![1, 2]);
    assert!(get_raw_from_cbor(&d, &steps(&[])).is_err());
    assert!(get_raw_from_cbor(&CborValue::Integer(1), &steps(&[])).is_err());
}

#[test]
fn big_numbers_become_bignum_tags() {
    let v = 170141183460469231731687303715884105727i128.into_item_data();
    match v.cbor() {
        CborValue::Tag(2, inner) => match &**inner {
            CborValue::Bytes(b) => assert_eq!(b.len(), 16),
            _ => panic!("a byte string"),
        },
        _ => panic!("a bignum"),
    }
}

#[test]
fn a_store_reads_back_what_was_written() {
    let ns = Namespace("n".to_owned());
    let mut store = MemStore::new();
    let id = id_from_string("3", &ns).unwrap();
    store.set(&id, ItemData::from_cbor(map(vec![("a", text("1"))]))).unwrap();
    let sub = id_from_string("3/a", &ns).unwrap();
    assert_eq!(store.get_value_data_full(&sub).unwrap(), ItemData::from_string("1"));
    store.set(&sub, ItemData::from_string("2")).unwrap();
    assert_eq!(store.get_value_data_full(&sub).unwrap(), ItemData::from_string("2"));
    assert_eq!(store.get_value_raw(&sub).unwrap(), b"2".to_vec());
    let other = id_from_string("4", &ns).unwrap();
    assert_eq!(store.get_value_data_full(&other).unwrap(), ItemData::new());
    assert!(store.get_value_raw(&other).is_err());
}

#[test]
fn a_store_hands_out_numbers_and_walks_its_items() {
    let ns = Namespace("n".to_owned());
    let mut store = MemStore::new();
    assert_eq!(store.new_id().unwrap(), "0");
    assert_eq!(store.new_id().unwrap(), "1");
    assert_eq!(store.new_id().unwrap(), "2");
    store.set(&id_from_string("2", &ns).unwrap(), ItemData::from_string("x")).unwrap();
    store.set(&id_from_string("0", &ns).unwrap(), ItemData::from_string("y")).unwrap();
    assert_eq!(store.first_id().unwrap(), "0");
    assert_eq!(store.next_id("0").unwrap(), Some("2".to_owned()));
    assert_eq!(store.next_id("2").unwrap(), None);
    assert!(store.next_id("x").is_err());
    assert_eq!(store.id_iter().unwrap(), vec!["2".to_owned()]);
}

#[test]
fn ids_read_their_namespace_and_drop_empty_steps() {
    let ns = Namespace("home".to_owned());
    let id = id_from_string("/a//b/", &ns).unwrap();
    assert_eq!(id.path, steps(&["a", "b"]));
    assert_eq!(id.namespace_str(), "home");
    let other = id_from_string("peer:5/c", &ns).unwrap();
    assert_eq!(other.path, steps(&["5", "c"]));
    assert_eq!(other.namespace_str(), "peer");
    assert!(id_from_string("//", &ns).is_err());
    assert!(id_from_vec_string(vec![], &ns).is_err());
    let id = MizeId { path: steps(&["1", "x"]), namespace: ns };
    assert_eq!(id.to_text(), "1/x");
    assert_eq!(id.store_part(), "1");
    assert_eq!(id.nth_part(1).unwrap(), "x");
    assert!(id.nth_part(2).is_err());
    assert_eq!(id.after_store_part(), steps(&["x"]));
}

#[test]
fn a_message_gives_back_its_command_id_and_data() {
    let ns = Namespace("n".to_owned());
    let id = id_from_string("1/a", &ns).unwrap();
    let m = MizeMessage::new_update_request(id.clone(), ItemData::from_string("d"), 3);
    assert_eq!(m.cmd().unwrap(), MessageCmd::UpdateRequest);
    assert_eq!(m.id_str().unwrap(), steps(&["1", "a"]));
    assert_eq!(m.data().unwrap(), ItemData::from_string("d"));
    assert_eq!(m.conn_id(), 3);
    let g = MizeMessage::new_get_sub(id, 2);
    assert_eq!(g.cmd().unwrap(), MessageCmd::GetSub);
    assert!(g.data().is_err());
    let c = MizeMessage::new_create(1);
    assert!(c.id_str().is_err());
    let bad = MizeMessage::new(CborValue::Mapping(vec![(CborValue::Integer(1), CborValue::Integer(9))]), 1);
    assert!(bad.cmd().is_err());
}

#[test]
fn error_codes_give_their_messages() {
    let e = MizeError::code(109);
    assert_eq!(e.code, 109);
    assert_eq!(e.category, vec!["decoding".to_owned()]);
    assert_eq!(e.messages, vec!["conversion from utf8 failed".to_owned()]);
    let e = MizeError::code(108);
    assert_eq!(e.messages, vec!["serde deserialisation failed".to_owned()]);
    let e = MizeError::code(5);
    assert_eq!(e.code, 0);
    let e = MizeError::new().msg("a").category("c").set_code(7);
    assert_eq!(e.code, 7);
    assert_eq!(e.messages, vec!["a".to_owned()]);
}

#[test]
fn migrating_moves_the_items_into_the_new_store_in_order() {
    let mut inst = mize::instance::Instance::empty(ItemData::from_toml("[config]\nname = \"test instance\"").unwrap()).unwrap();
    assert_eq!(inst.store_new_id().unwrap(), "1");
    assert_eq!(inst.store_new_id().unwrap(), "2");
    assert_eq!(inst.store_new_id().unwrap(), "3");
    let zero = inst.id_from_string("0").unwrap();
    let two = inst.id_from_string("2").unwrap();
    let three = inst.id_from_string("3").unwrap();
    inst.store_set(&zero, ItemData::from_string("zero")).unwrap();
    inst.store_set(&two, ItemData::from_string("two")).unwrap();
    inst.store_set(&three, ItemData::from_string("three")).unwrap();
    let mut target = MemStore::new();
    for _ in 0..5 {
        target.new_id().unwrap();
    }
    let five = inst.id_from_string("5").unwrap();
    let six = inst.id_from_string("6").unwrap();
    target.set(&five, ItemData::from_string("old")).unwrap();
    inst.migrate_to_store(target).unwrap();
    let store = inst.store();
    assert_eq!(store.get_value_data_full(&zero).unwrap(), ItemData::from_string("zero"));
    assert_eq!(store.get_value_data_full(&five).unwrap(), ItemData::from_string("two"));
    assert_eq!(store.get_value_data_full(&six).unwrap(), ItemData::from_string("three"));
    assert_eq!(store.get_value_data_full(&two).unwrap(), ItemData::new());
    assert_eq!(inst.store_new_id().unwrap(), "7");
}

#[test]
fn a_store_can_start_counting_where_another_stopped() {
    let mut store = MemStore::starting_at(40);
    assert_eq!(store.next_number(), 40);
    assert_eq!(store.new_id().unwrap(), "40");
    assert_eq!(store.next_number(), 41);
    assert_eq!(store.id_iter().unwrap(), Vec::<String>::new());
}

#[test]
fn floats_are_equal_as_numbers_are() {
    let zero = CborValue::Float(0);
    let minus_zero = CborValue::Float(0x8000_0000_0000_0000);
    let nan = CborValue::Float(0x7FF8_0000_0000_0000);
    assert!(values_equal(&zero, &minus_zero));
    assert!(!values_equal(&nan, &nan));
    assert!(CborValue::Array(vec![zero.copy()]) == CborValue::Array(vec![minus_zero.copy()]));
    assert!(CborValue::Array(vec![nan.copy()]) != CborValue::Array(vec![nan.copy()]));
    assert!(ItemData::from_cbor(CborValue::Float(0x3FF8_0000_0000_0000)) == ItemData::from_toml("x = 1.5").unwrap().get_path(vec!["x"]).unwrap());
}
