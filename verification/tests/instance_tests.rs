use mize::error::MizeResult;
use mize::id::MizeId;
use mize::instance::{Instance, Item, Subscription};
use mize::item::{IntoItemData, ItemData};
use mize::updater::{handle_msg, handle_operation, resume, Action, Fetch, NewItem, Operation, Pending};
use mize::proto::{MessageCmd, MizeMessage};
use mize::value::CborValue;

/// The configuration a test instance is built with, as a build file gives it.
const BUILD_CONFIG: &str = r#"
        [config]
        name = "test instance"
    "#;

fn build_config() -> ItemData {
    ItemData::from_toml(BUILD_CONFIG).expect("a valid build configuration")
}

fn ready<T>(f: Fetch<T>) -> T {
    match f {
        Fetch::Ready(d) => d,
        Fetch::Remote(_, _) => panic!("the data should be at hand"),
    }
}

fn new_local_item(instance: &mut Instance) -> Item {
    match instance.new_item().expect("a new item") {
        NewItem::Ready(item) => item,
        NewItem::Remote(_) => panic!("the instance owns its namespace"),
    }
}

const DATA: &str = r#"
        [config]
        hi = "hello from config/hi"

        [config.test]
        inner = "inner"
    "#;

const DATA_TWO: &str = r#"
        [config]
        hi = "hello from config/hi"

        [config.test]
        inner = "new inner"
    "#;

#[test]
fn test_set_sub_path() -> MizeResult<()> {
    let mut instance = Instance::empty(build_config())?;

    let data = ItemData::from_toml(DATA)?;
    let data_two = ItemData::from_toml(DATA_TWO)?;

    let item = new_local_item(&mut instance);
    instance.set_blocking(item.id(), data.clone())?;

    assert_eq!(ready(item.as_data_full(&instance)?), data);

    // try to set a sub path of item
    instance.set_blocking(vec![item.id().store_part(), "config", "test", "inner"], "new inner".into_item_data())?;

    // the contents of item should then be like data_two
    assert_eq!(
        ready(instance.get(vec![item.id().store_part(), "config", "test", "inner"])?.as_data_full(&instance)?),
        ItemData::from_string("new inner")
    );
    assert_eq!(ready(item.as_data_full(&instance)?), data_two);

    Ok(())
}

#[test]
fn test_itemdata_set_path() -> MizeResult<()> {
    let mut data = ItemData::from_toml(DATA)?;
    let data_two = ItemData::from_toml(DATA_TWO)?;

    data.set_path(vec!["config", "test", "inner"], ItemData::from_string("new inner"))?;

    assert_eq!(data, data_two);

    Ok(())
}

#[test]
fn test_itemdata_merge() -> MizeResult<()> {
    let mut data = ItemData::from_toml(DATA)?;
    let data_two = ItemData::from_toml(DATA_TWO)?;

    assert_eq!(data.get_path(vec!["config", "test", "inner"])?, ItemData::from_string("inner"));

    data.merge(data_two.clone());

    assert_eq!(data, data_two);

    assert_eq!(data.get_path(vec!["config", "test", "inner"])?, ItemData::from_string("new inner"));

    Ok(())
}

#[test]
fn test_item_merge() -> MizeResult<()> {
    let mut instance = Instance::empty(build_config())?;

    let item = new_local_item(&mut instance);

    // here the item should contain "empty" data
    assert_eq!(ready(item.as_data_full(&instance)?), ItemData::new());

    let data = ItemData::from_toml(DATA)?;
    let data_two = ItemData::from_toml(DATA_TWO)?;

    item.merge(&mut instance, data.clone())?;

    // now it should contain data
    assert_eq!(ready(item.as_data_full(&instance)?), data);

    let sub_item = instance.get(vec![item.id().store_part(), "config", "test", "inner"])?;

    // the sub item should have the string "inner"
    assert_eq!(ready(sub_item.as_data_full(&instance)?), ItemData::from_string("inner"));

    let _ = sub_item.merge(&mut instance, ItemData::from_string("new inner"));

    assert_eq!(ready(sub_item.as_data_full(&instance)?), ItemData::from_string("new inner"));

    // also the item should be updated
    assert_eq!(ready(item.as_data_full(&instance)?), data_two);

    Ok(())
}

#[test]
fn most_minimal_instance_usage() {
    let mut mize = Instance::empty(build_config()).expect("an instance");

    // the most important things you do with an instance is to get and set things
    let _name = mize.get("1/namespace").expect("an item");
    let item = new_local_item(&mut mize);
    let mut path = item.id().path();
    path.push("name".to_owned());
    let _queued = mize.set(path, "test-item").expect("a set");
}

#[test]
fn new_items_are_numbered_from_one() {
    let mut instance = Instance::empty(build_config()).unwrap();
    let a = new_local_item(&mut instance);
    let b = new_local_item(&mut instance);
    assert_eq!(a.id().to_text(), "1");
    assert_eq!(b.id().to_text(), "2");
    assert_eq!(a.id().namespace_str(), "mize.default.namespace");
}

#[test]
fn read_after_write_merges_into_what_was_there() {
    let mut instance = Instance::empty(build_config()).unwrap();
    let item = new_local_item(&mut instance);
    let first = ItemData::from_toml("a = 1\nb = 2").unwrap();
    let second = ItemData::from_toml("b = 3\nc = 4").unwrap();
    instance.set_blocking(item.id(), first).unwrap();
    instance.set_blocking(item.id(), second).unwrap();
    let got = ready(item.as_data_full(&instance).unwrap());
    assert_eq!(got.get_path("a").unwrap(), ItemData::from_cbor(CborValue::Integer(1)));
    assert_eq!(got.get_path("b").unwrap(), ItemData::from_cbor(CborValue::Integer(3)));
    assert_eq!(got.get_path("c").unwrap(), ItemData::from_cbor(CborValue::Integer(4)));
}

#[test]
fn writes_leave_other_items_alone() {
    let mut instance = Instance::empty(build_config()).unwrap();
    let a = new_local_item(&mut instance);
    let b = new_local_item(&mut instance);
    instance.set_blocking(a.id(), "x").unwrap();
    instance.set_blocking(b.id(), "y").unwrap();
    assert_eq!(ready(a.as_data_full(&instance).unwrap()), ItemData::from_string("x"));
    assert_eq!(ready(b.as_data_full(&instance).unwrap()), ItemData::from_string("y"));
}

#[test]
fn a_sub_path_of_a_missing_item_cannot_be_written() {
    let mut instance = Instance::empty(build_config()).unwrap();
    assert!(instance.set_blocking("5/a", "x").is_err());
    assert!(instance.set_blocking("5", "x").is_ok());
}

#[test]
fn the_instance_tells_its_namespaces() {
    let instance = Instance::empty(build_config()).unwrap();
    let ns = instance.get("self/namespace").unwrap();
    assert_eq!(ready(ns.as_data_full(&instance).unwrap()), ItemData::from_string("mize.default.namespace"));
    let own = instance.get("self/self_namespace").unwrap();
    assert_eq!(ready(own.as_data_full(&instance).unwrap()), ItemData::from_string("mize.default.namespace"));
    let bad = instance.get("self/config").unwrap();
    assert!(bad.as_data_full(&instance).is_err());
    let short = instance.get("inst").unwrap();
    assert!(short.as_data_full(&instance).is_err());
}

#[test]
fn the_store_part_must_be_a_number() {
    let mut instance = Instance::empty(build_config()).unwrap();
    assert!(instance.set_blocking("abc", "x").is_err());
}

#[test]
fn with_config_puts_the_config_at_item_zero() {
    let config = ItemData::from_toml("[config]\nhi = \"me\"").unwrap();
    let instance = Instance::with_config(build_config(), config).unwrap();
    let hi = instance.get("0/config/hi").unwrap();
    assert_eq!(ready(hi.as_data_full(&instance).unwrap()), ItemData::from_string("me"));
    let name = instance.get("0/config/name").unwrap();
    assert_eq!(ready(name.as_data_full(&instance).unwrap()), ItemData::from_string("test instance"));
}

#[test]
fn a_new_instance_holds_its_build_configuration_at_item_zero() {
    let build = ItemData::from_toml("[config]\nname = \"built\"\nstore_path = \"/tmp/x\"").unwrap();
    let instance = Instance::empty(build.clone()).unwrap();
    assert_eq!(instance.we_are_namespace().unwrap(), true);
    assert!(instance.get_connection(1).is_err());
    let zero = instance.get("0").unwrap();
    assert_eq!(ready(zero.as_data_full(&instance).unwrap()), build);
    let name = instance.get("0/config/name").unwrap();
    assert_eq!(ready(name.as_data_full(&instance).unwrap()), ItemData::from_string("built"));
    let over = ItemData::from_toml("[config]\nname = \"me\"").unwrap();
    let merged = Instance::with_config(build, over).unwrap();
    let name = merged.get("0/config/name").unwrap();
    assert_eq!(ready(name.as_data_full(&merged).unwrap()), ItemData::from_string("me"));
    let path = merged.get("0/config/store_path").unwrap();
    assert_eq!(ready(path.as_data_full(&merged).unwrap()), ItemData::from_string("/tmp/x"));
}

#[test]
fn listeners_hear_of_writes() {
    let mut instance = Instance::empty(build_config()).unwrap();
    let item = new_local_item(&mut instance);
    let actions = instance.sub(item.id(), Subscription::from_listener(7)).unwrap();
    assert!(actions.is_empty());
    let actions = instance.set_blocking(item.id(), "v").unwrap();
    assert_eq!(actions.len(), 1);
    match &actions[0] {
        Action::Notify(n, id) => {
            assert_eq!(*n, 7);
            assert_eq!(id.to_text(), "1");
        },
        other => panic!("unexpected action {:?}", other),
    }
}

#[test]
fn connections_hear_of_writes_but_not_of_their_own() {
    let mut instance = Instance::empty(build_config()).unwrap();
    let conn = instance.new_connection().unwrap();
    assert_eq!(conn, 1);
    let item = new_local_item(&mut instance);
    let c = instance.get_connection(conn).unwrap();
    instance.sub(item.id(), Subscription::from_conn(&c)).unwrap();
    let actions = instance.set_blocking(item.id(), "v").unwrap();
    assert_eq!(actions.len(), 1);
    match &actions[0] {
        Action::Send(m) => {
            assert_eq!(m.cmd().unwrap(), MessageCmd::Update);
            assert_eq!(m.conn_id(), conn);
            assert_eq!(m.data().unwrap(), ItemData::from_string("v"));
        },
        other => panic!("unexpected action {:?}", other),
    }
    let op = Operation::Write(item.id(), ItemData::from_string("w"), Some(c.clone()));
    let actions = handle_operation(op, &mut instance).unwrap();
    assert!(actions.is_empty());
}

#[test]
fn a_get_is_answered_with_a_give() {
    let mut instance = Instance::empty(build_config()).unwrap();
    let conn = instance.new_connection().unwrap();
    let item = new_local_item(&mut instance);
    instance.set_blocking(item.id(), "hello").unwrap();
    let msg = MizeMessage::new_get(item.id(), conn);
    let actions = handle_msg(&msg, &mut instance).unwrap();
    assert_eq!(actions.len(), 1);
    match &actions[0] {
        Action::Send(m) => {
            assert_eq!(m.cmd().unwrap(), MessageCmd::Give);
            assert_eq!(m.id_str().unwrap(), vec!["1".to_owned()]);
            assert_eq!(m.data().unwrap(), ItemData::from_string("hello"));
            assert_eq!(m.conn_id(), conn);
        },
        other => panic!("unexpected action {:?}", other),
    }
}

#[test]
fn a_get_over_an_unknown_connection_fails() {
    let mut instance = Instance::empty(build_config()).unwrap();
    let item = new_local_item(&mut instance);
    let msg = MizeMessage::new_get(item.id(), 9);
    assert!(handle_msg(&msg, &mut instance).is_err());
}

#[test]
fn a_create_is_answered_with_the_new_id() {
    let mut instance = Instance::empty(build_config()).unwrap();
    let conn = instance.new_connection().unwrap();
    let actions = handle_msg(&MizeMessage::new_create(conn), &mut instance).unwrap();
    assert_eq!(actions.len(), 1);
    match &actions[0] {
        Action::Send(m) => {
            assert_eq!(m.cmd().unwrap(), MessageCmd::CreateReply);
            assert_eq!(m.id_str().unwrap(), vec!["1".to_owned()]);
        },
        other => panic!("unexpected action {:?}", other),
    }
    let next = new_local_item(&mut instance);
    assert_eq!(next.id().to_text(), "2");
}

#[test]
fn an_update_is_queued_as_a_write_from_its_connection() {
    let mut instance = Instance::empty(build_config()).unwrap();
    let conn = instance.new_connection().unwrap();
    let id = instance.new_id("3").unwrap();
    let msg = MizeMessage::new_update(id, ItemData::from_string("x"), conn);
    let actions = handle_msg(&msg, &mut instance).unwrap();
    assert_eq!(actions.len(), 1);
    match &actions[0] {
        Action::Queue(Operation::Write(id, data, Some(c))) => {
            assert_eq!(id.to_text(), "3");
            assert_eq!(*data, ItemData::from_string("x"));
            assert_eq!(c.id, conn);
        },
        other => panic!("unexpected action {:?}", other),
    }
}

#[test]
fn a_give_goes_to_those_waiting() {
    let mut instance = Instance::empty(build_config()).unwrap();
    let id = instance.new_id("4/a").unwrap();
    let msg = MizeMessage::new_give(id.clone(), ItemData::from_string("d"), 1);
    assert!(handle_msg(&msg, &mut instance).unwrap().is_empty());
    instance.give_msg_wait(id.clone());
    let actions = handle_msg(&msg, &mut instance).unwrap();
    match &actions[0] {
        Action::Give(i, d) => {
            assert_eq!(i.to_text(), "4/a");
            assert_eq!(*d, ItemData::from_string("d"));
        },
        other => panic!("unexpected action {:?}", other),
    }
}

#[test]
fn a_message_without_a_command_fails() {
    let mut instance = Instance::empty(build_config()).unwrap();
    let msg = MizeMessage::new(CborValue::Mapping(vec![]), 1);
    assert!(handle_msg(&msg, &mut instance).is_err());
    let msg = MizeMessage::new(CborValue::Integer(3), 1);
    assert!(msg.cmd().is_err());
}

#[test]
fn items_of_another_namespace_are_asked_of_their_owner() {
    let mut instance = Instance::empty(build_config()).unwrap();
    let conn = instance.new_connection().unwrap();
    instance
        .connection_set_namespace(conn, instance.namespace_from_string("peer.ns").unwrap())
        .unwrap();
    let id = MizeId { path: vec!["7".to_owned()], namespace: instance.namespace_from_string("peer.ns").unwrap() };
    let item = Item::new(id);
    match item.as_data_full(&instance).unwrap() {
        Fetch::Remote(w, m) => {
            assert_eq!(w.to_text(), "7");
            assert_eq!(m.cmd().unwrap(), MessageCmd::Get);
            assert_eq!(m.conn_id(), conn);
        },
        Fetch::Ready(_) => panic!("the data lives with the peer"),
    }
}

#[test]
fn a_peer_namespace_is_joined_once_its_config_comes_back() {
    let mut instance = Instance::empty(build_config()).unwrap();
    let (conn, actions) = instance.new_connection_join_namespace().unwrap();
    assert_eq!(conn, 1);
    let pending = match actions.into_iter().next() {
        Some(Action::Fetch(w, m, p)) => {
            assert_eq!(w.to_text(), "0/config/namespace");
            assert_eq!(m.conn_id(), 1);
            p
        },
        _ => panic!("the namespace must be fetched"),
    };
    resume(&mut instance, pending, ItemData::from_string("peer.ns")).unwrap();
    assert_eq!(instance.get_namespace().unwrap().as_string(), "peer.ns");
    assert_eq!(instance.get_connection(1).unwrap().ns.unwrap().as_string(), "peer.ns");
    assert_eq!(instance.we_are_namespace().unwrap(), false);
}

#[test]
fn resuming_a_give_sends_it() {
    let mut instance = Instance::empty(build_config()).unwrap();
    let id = instance.new_id("2").unwrap();
    let actions = resume(&mut instance, Pending::Give(id, 5), ItemData::from_string("z")).unwrap();
    match &actions[0] {
        Action::Send(m) => {
            assert_eq!(m.cmd().unwrap(), MessageCmd::Give);
            assert_eq!(m.conn_id(), 5);
            assert_eq!(m.data().unwrap(), ItemData::from_string("z"));
        },
        other => panic!("unexpected action {:?}", other),
    }
}

#[test]
fn two_new_items_differ() {
    let mut instance = Instance::empty(build_config()).unwrap();
    let a = new_local_item(&mut instance);
    let b = new_local_item(&mut instance);
    assert_ne!(a.id().to_text(), b.id().to_text());
}

#[test]
fn connections_get_fresh_numbers_and_keep_their_namespace() {
    let mut instance = Instance::empty(build_config()).unwrap();
    assert_eq!(instance.new_connection().unwrap(), 1);
    assert_eq!(instance.new_connection().unwrap(), 2);
    assert_eq!(instance.new_connection().unwrap(), 3);
    let c = instance.get_connection(2).unwrap();
    assert_eq!(c.id, 2);
    assert!(c.ns.is_none());
    let ns = instance.namespace_from_string("peer.ns").unwrap();
    instance.connection_set_namespace(2, ns).unwrap();
    assert_eq!(instance.get_connection(2).unwrap().ns.unwrap().0, "peer.ns");
    let ns = instance.namespace_from_string("peer.ns").unwrap();
    assert_eq!(instance.get_connection_by_ns(&ns).unwrap().id, 2);
    assert!(instance.connection_set_namespace(9, ns).is_err());
    assert!(instance.get_connection(9).is_err());
}

#[test]
fn a_message_describes_its_command_id_and_data() {
    let instance = Instance::empty(build_config()).unwrap();
    let id = instance.id_from_string("5/a").unwrap();
    let give = MizeMessage::new_give(id, ItemData::from_string("d"), 1);
    assert_eq!(
        give.describe("\"5/a\"", Some("\"d\""), "{}"),
        "MizeMessage with cmd: Give\n\tid: \"5/a\"\n\tdata: \"d\""
    );
    assert_eq!(
        give.describe("\"5/a\"", None, "{full}"),
        "MizeMessage with cmd: Give\n\tid: \"5/a\"\n\tdata: serialize err: Error\nFull msg: {full}"
    );
    let create = MizeMessage::new_create(1);
    assert_eq!(
        create.describe("", Some(""), "{}"),
        "MizeMessage with cmd: Create\n\t msg has no id\n\t msg has no data\n"
    );
    let odd = MizeMessage::new(CborValue::Null, 1);
    assert_eq!(
        odd.describe("", Some(""), "null"),
        "MizeMessage with unparsable cmd\n\t msg has no id\n\t msg has no data\nFull msg: null"
    );
}

#[test]
fn the_first_new_item_is_number_one_and_empty() {
    let mut instance = Instance::empty(build_config()).unwrap();
    let item = new_local_item(&mut instance);
    assert_eq!(item.id().store_part(), "1");
    assert_eq!(ready(item.as_data_full(&instance).unwrap()), ItemData::new());
}

#[test]
fn data_reads_and_writes_json_and_toml() {
    let data = ItemData::from_json("{\"a\": [1, true, \"x\"], \"b\": null}".to_owned()).unwrap();
    assert_eq!(data.get_path(vec!["a"]).unwrap().to_json().unwrap(), "[1,true,\"x\"]");
    assert_eq!(data.get_path(vec!["b"]).unwrap(), ItemData::new());
    assert!(ItemData::from_json("{".to_owned()).is_err());
    assert!(ItemData::from_toml("a = ").is_err());
    let t = ItemData::from_toml("x = 1.5\ny = \"z\"").unwrap();
    assert_eq!(t.to_json().unwrap(), "{\"x\":1.5,\"y\":\"z\"}");
    assert_eq!(ItemData::from_string("hi").to_json().unwrap(), "\"hi\"");
}

#[test]
fn the_module_hash_is_made_of_the_json_selector() {
    let selector = ItemData::from_json("{\"modName\":\"m\"}".to_owned()).unwrap();
    let (hash, text) = mize::module::selector_hash(&selector).unwrap();
    assert_eq!(text, "{\"modName\":\"m\"}");
    assert_eq!(hash, mize::module::module_hash(&text));
    assert_eq!(hash.len(), 32);
}
