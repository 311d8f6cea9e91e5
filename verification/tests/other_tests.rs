use mize::server::itemstore::{Delta, Item as ServerItem};
use mize::log::{
    choose_log_level, filter_from_text, hex, level_from_env, rust_log_is_valid, string_to_level, EnvValue,
    Level, LevelFilter, MinimalTracer, StringVisitor, DEFAULT_LOG_LEVEL,
};
use mize::module::{module_hash, module_selector, get_module_hash, EmptyModule, Module};
use mize::fsstore::{join_path, pid_from_file, FileStore};
use mize::itemstore::{next_id_from, may_open, proc_path, FolderItemstore};
use mize::unix_socket::{incoming_message, UnixListener};
use mize::web::Web;
use mize::server::{find_render, folder_from_args, content_type, render_main_path, Render, RenderType};
use mize::server::proto::{MizeId as ServerId, MizeIdKind};
use mize::server::error::{MizeCodeLocation, MizeError as ServerError};
use mize::server::server_utils::{import, update_item};
use mize::instance::Instance;
use mize::item::ItemData;
use mize::id::{id_from_string, Namespace};
use mize::value::CborValue;

#[test]
fn level_names_in_any_case() {
    assert_eq!(string_to_level("INFO"), Some(Level::Info));
    assert_eq!(string_to_level("Warning"), Some(Level::Warn));
    assert_eq!(string_to_level("trace"), Some(Level::Trace));
    assert_eq!(string_to_level("none"), None);
    assert_eq!(filter_from_text("None"), Some(LevelFilter::Off));
    assert_eq!(filter_from_text("warning"), None);
}

#[test]
fn the_environment_chooses_a_level_or_keeps_it() {
    let (l, m) = level_from_env("RUST_LOG", EnvValue::Missing, LevelFilter::Warn);
    assert_eq!(l, None);
    assert!(m.is_empty());
    let (l, m) = level_from_env("RUST_LOG", EnvValue::Text("Debug".to_owned()), LevelFilter::Warn);
    assert_eq!(l, Some(LevelFilter::Debug));
    assert!(m.is_empty());
    let (l, m) = level_from_env("MIZE_LOG", EnvValue::Text("loud".to_owned()), LevelFilter::Warn);
    assert_eq!(l, Some(LevelFilter::Warn));
    assert_eq!(m[0].0, Level::Warn);
    assert_eq!(
        m[0].1,
        "The value of Environment Variable MIZE_LOG: \"loud\" is not a valid log-level. loglevel stays at: warn"
    );
    let (l, m) = level_from_env("X", EnvValue::NotUnicode(vec![0xff, 0x01], "\u{fffd}\u{1}".to_owned()), LevelFilter::Info);
    assert_eq!(l, None);
    assert_eq!(m[0].0, Level::Debug);
    assert!(m[0].1.ends_with("the WTF-8 raw bytes as hex: ff01"));
}

#[test]
fn verbose_flags_count_up_from_the_default_and_silent_wins() {
    let s = choose_log_level(DEFAULT_LOG_LEVEL, EnvValue::Missing, EnvValue::Missing, 0, None, false);
    assert_eq!(s.level, LevelFilter::Warn);
    let s = choose_log_level(DEFAULT_LOG_LEVEL, EnvValue::Text("trace".to_owned()), EnvValue::Missing, 1, None, false);
    assert_eq!(s.level, LevelFilter::Info);
    let s = choose_log_level(DEFAULT_LOG_LEVEL, EnvValue::Missing, EnvValue::Missing, 9, None, false);
    assert_eq!(s.level, LevelFilter::Trace);
    let s = choose_log_level(DEFAULT_LOG_LEVEL, EnvValue::Missing, EnvValue::Missing, 0, Some("ERROR".to_owned()), false);
    assert_eq!(s.level, LevelFilter::Error);
    let s = choose_log_level(DEFAULT_LOG_LEVEL, EnvValue::Missing, EnvValue::Missing, 0, Some("nope".to_owned()), false);
    assert_eq!(s.level, LevelFilter::Warn);
    let s = choose_log_level(DEFAULT_LOG_LEVEL, EnvValue::Missing, EnvValue::Missing, 2, None, true);
    assert_eq!(s.level, LevelFilter::Off);
    assert_eq!(s.messages[0], (Level::Info, "Starting Mize".to_owned()));
    assert_eq!(s.messages.last().unwrap(), &(Level::Info, "loglevel is now off".to_owned()));
}

#[test]
fn the_tracer_reads_its_filters_from_rust_log() {
    assert!(rust_log_is_valid("debug,my.span=trace"));
    assert!(!rust_log_is_valid("loud"));
    let mut t = MinimalTracer::register(Some("debug,my.span=trace".to_owned()));
    assert!(t.enabled());
    assert!(t.event(Level::Debug).is_some());
    assert!(t.event(Level::Trace).is_none());
    let s = t.new_span("my.span".to_owned());
    let o = t.new_span("other".to_owned());
    assert_eq!(s, 1);
    assert_eq!(o, 2);
    t.enter(s);
    assert_eq!(t.event(Level::Trace), Some("my.span".to_owned()));
    t.exit(s);
    assert!(t.event(Level::Trace).is_none());
    t.enter(s);
    t.enter(o);
    assert!(t.event(Level::Warn).is_none());
    assert_eq!(t.event(Level::Error), Some("my.span::other".to_owned()));
    let off = MinimalTracer::register(None);
    assert!(off.event(Level::Warn).is_none());
    assert!(off.event(Level::Error).is_some());
}

#[test]
fn the_tracer_counts_its_spans_and_knows_them() {
    let mut t = MinimalTracer::register(Some("info,a=debug".to_owned()));
    assert_eq!(t.next_span_id(), 1);
    assert!(!t.knows_span(1));
    let a = t.new_span("a".to_owned());
    assert_eq!(a, 1);
    assert_eq!(t.next_span_id(), 2);
    assert!(t.knows_span(1));
    assert!(t.event(Level::Info).is_some());
    assert!(t.event(Level::Debug).is_none());
    t.enter(a);
    assert_eq!(t.event(Level::Trace), Some("a".to_owned()));
    t.exit(a);
    t.exit(a);
    assert_eq!(t.event(Level::Info), Some(String::new()));
    assert!(!rust_log_is_valid(""));
    assert!(rust_log_is_valid("x=nonsense"));
}

#[test]
fn the_visitor_writes_fields() {
    let mut v = StringVisitor::new(String::new());
    v.record_debug("message", "\"hi\"");
    v.record_debug("x", "1");
    assert_eq!(v.into_string(), "\"hi\" x = 1; ");
}

#[test]
fn hex_writes_two_digits_per_byte() {
    assert_eq!(hex(&[0x00, 0xab, 0x10]), "00ab10");
}

#[test]
fn the_module_hash_is_the_start_of_the_sha256_of_the_selector() {
    assert_eq!(module_hash("abc"), "ba7816bf8f01cfea414140de5dae2223");
    assert_eq!(module_hash(""), "e3b0c44298fc1c149afbf4c8996fb924");
}

#[test]
fn the_module_selector_names_the_module_and_its_system() {
    let base = ItemData::from_cbor(CborValue::Mapping(vec![(CborValue::Text("z".to_owned()), CborValue::Integer(1))]));
    let s = module_selector(base, "cross.linux.my.mod", ItemData::new()).unwrap();
    assert_eq!(s.get_path("system").unwrap(), ItemData::from_string("linux"));
    assert_eq!(s.get_path("modName").unwrap(), ItemData::from_string("mymod"));
    match s.cbor() {
        CborValue::Mapping(m) => {
            let keys: Vec<String> = m.iter().map(|(k, _)| match k { CborValue::Text(t) => t.clone(), _ => String::new() }).collect();
            assert_eq!(keys, vec!["modName".to_owned(), "system".to_owned(), "z".to_owned()]);
        },
        _ => panic!("a mapping"),
    }
    let s = module_selector(ItemData::new(), "plain", ItemData::new()).unwrap();
    assert_eq!(s.get_path("modName").unwrap(), ItemData::from_string("plain"));
    assert!(module_selector(ItemData::new(), "cross", ItemData::new()).is_err());
    assert!(module_selector(ItemData::new(), "cross.linux", ItemData::new()).is_err());
    assert!(module_selector(ItemData::from_string("t"), "plain", ItemData::new()).is_err());
}

#[test]
fn the_configured_selector_cannot_be_read_under_self() {
    let instance = Instance::empty(ItemData::from_toml("[config]\nname = \"test instance\"").unwrap()).unwrap();
    assert!(get_module_hash(&instance, "plain", ItemData::new()).is_err());
}

#[test]
fn the_empty_module_does_nothing() {
    let instance = Instance::empty(ItemData::from_toml("[config]\nname = \"test instance\"").unwrap()).unwrap();
    let mut m = EmptyModule {};
    assert!(m.init(&instance).is_ok());
    assert!(m.exit(&instance).is_ok());
    assert!(m.run_cli(&instance, vec![]).is_none());
}

#[test]
fn file_store_paths_and_counter() {
    assert_eq!(join_path("", "a"), "a");
    assert_eq!(join_path("/x/", "a"), "/x/a");
    assert_eq!(join_path("/x", "a"), "/x/a");
    let s = FileStore::new("/tmp/st", None).unwrap();
    assert!(FileStore::new("/tmp/st", Some(12)).is_err());
    let id = id_from_string("5/a", &Namespace("n".to_owned())).unwrap();
    assert_eq!(s.item_file(&id), "/tmp/st/store/5");
    assert_eq!(s.next_id_file(), "/tmp/st/next_id");
    assert_eq!(s.pid_file(), "/tmp/st/pid");
    assert_eq!(s.next_id_step(b"41".to_vec()).unwrap(), ("41".to_owned(), "42".to_owned()));
    assert!(s.next_id_step(b"x".to_vec()).is_err());
    assert!(s.next_id_step(vec![0xff]).is_err());
    assert!(s.next_id_step(b"18446744073709551615".to_vec()).is_err());
    let stored = ItemData::from_cbor(CborValue::Mapping(vec![(CborValue::Text("a".to_owned()), CborValue::Text("v".to_owned()))]));
    assert_eq!(s.get_value_data_full(&id, &stored).unwrap(), ItemData::from_string("v"));
    assert_eq!(s.get_value_raw(&id, &stored).unwrap(), b"v".to_vec());
    assert_eq!(pid_from_file(b"123".to_vec()).unwrap(), 123);
    assert!(pid_from_file(b"-1".to_vec()).is_err());
}

#[test]
fn folder_store_counter_and_open_check() {
    assert_eq!(next_id_from(None).unwrap(), 100);
    assert_eq!(next_id_from(Some(b"7".to_vec())).unwrap(), 7);
    assert!(next_id_from(Some(b"seven".to_vec())).is_err());
    assert!(may_open(true).is_err());
    assert!(may_open(false).is_ok());
    assert_eq!(proc_path(42), "/proc/42");
    let f = FolderItemstore::new("/d", 9);
    assert_eq!(f.next_id_text(), "9");
    assert_eq!(f.store_open_file(), "/d/store_open");
    assert_eq!(f.next_id_file(), "/d/store_next_id");
}

#[test]
fn the_socket_is_in_the_store_folder_and_an_integer_ends_a_connection() {
    let l = UnixListener::new("/s").unwrap();
    assert_eq!(l.sock_path(), "/s/sock");
    assert!(incoming_message(CborValue::Integer(0), 1).is_none());
    let m = incoming_message(CborValue::Mapping(vec![]), 4).unwrap();
    assert_eq!(m.conn_id(), 4);
    assert_eq!(Web::socket_route(), "/@mize/socket");
    let _w = Web {};
}

fn render(name: &str, t: RenderType) -> Render {
    Render { render_type: t, webroot: "www".to_owned(), name: name.to_owned(), main: "m.js".to_owned(), folder: "f".to_owned() }
}

#[test]
fn renders_are_found_by_name_or_by_the_default() {
    let rs = vec![render("a", RenderType::JsonUi), render("mize-mmejs", RenderType::WebComponent)];
    assert_eq!(find_render(&rs, "a"), Some(0));
    assert_eq!(find_render(&rs, "zzz"), Some(1));
    assert_eq!(find_render(&vec![render("a", RenderType::JsonUi)], "b"), None);
    assert_eq!(content_type(RenderType::JsonUi), "application/json");
    assert_eq!(render_main_path("/m", &rs[0]), "/m/mr/f/m.js");
}

#[test]
fn the_folder_argument_is_read() {
    let args = vec!["prog".to_owned(), "--folder=/data".to_owned(), "--other=x".to_owned(), "--folder".to_owned()];
    assert_eq!(folder_from_args(&args), "/data");
    assert_eq!(folder_from_args(&vec!["--folder=/x".to_owned()]), "");
}

#[test]
fn server_ids_name_modules_or_local_items() {
    match ServerId::new("#mod/x".to_owned()).kind().unwrap() {
        MizeIdKind::Module { mod_name, id } => {
            assert_eq!(mod_name, "");
            assert_eq!(id, "#mod/x");
        },
        _ => panic!("a module id"),
    }
    match ServerId::new_local("12").kind().unwrap() {
        MizeIdKind::Local(n) => assert_eq!(n, 12),
        _ => panic!("a local id"),
    }
    assert!(ServerId::new(String::new()).kind().is_err());
    assert!(ServerId::new("x1".to_owned()).kind().is_err());
    assert_eq!(ServerId::new("5".to_owned()).as_string(), "5");
}

#[test]
fn server_errors_come_from_their_table() {
    let loc = || MizeCodeLocation { file: "f.rs".to_owned(), line: 3, column: 4 };
    let table = vec![ServerError {
        category: "io".to_owned(),
        code: 30,
        message: "could not open".to_owned(),
        extra_msg: vec![],
        code_location: None,
    }];
    let e = ServerError::new(30, &table, loc());
    assert_eq!(e.code, 30);
    assert_eq!(e.message, "could not open");
    assert_eq!(e.code_location.as_ref().unwrap().line, 3);
    let e = ServerError::new(31, &table, loc());
    assert_eq!(e.code, 114);
    assert_eq!(e.category, "error with error system");
    assert_eq!(
        e.message,
        "The error with code 31 was not found in the Errors that where imported from the errors.toml file at build time."
    );
    let e = e.extra_msg("more").format(vec!["a", "b"]);
    assert_eq!(e.extra_msg, vec!["more".to_owned()]);
    assert!(e.message.ends_with(" FORMAT_0: a FORMAT_0: b"));
}

#[test]
fn the_unfinished_server_tools_do_nothing() {
    import(vec!["x".to_owned()]);
    update_item(1, "k".to_owned(), "v".to_owned());
}

use mize::server::peers::{handle_json_msg, socket_answer, JsonCmd, PeerRef, Peers, ServerAction, SocketAnswer, SocketEvent};
use mize::server::renders_from_mr;
use mize::os::{
    config_from_parts, default_store_path, module_archive_path, module_archive_url, module_build_dir,
    module_dir_config_id, module_library_path, module_symbol,
};

#[test]
fn peers_connect_and_close() {
    let mut p = Peers::new();
    assert_eq!(p.connect(None).unwrap(), PeerRef::Client(0));
    assert_eq!(p.connect(Some(Some("m".to_owned()))).unwrap(), PeerRef::Module(1));
    assert!(p.connect(Some(None)).is_err());
    assert_eq!(p.connect(None).unwrap(), PeerRef::Client(3));
    assert!(p.close(PeerRef::Client(0)).is_ok());
    assert!(p.close(PeerRef::Client(0)).is_err());
    assert!(p.close(PeerRef::Module(1)).is_ok());
    assert!(p.close(PeerRef::Upstream).is_ok());
}

#[test]
fn server_messages_are_answered_by_command() {
    let mut p = Peers::new();
    let me = p.connect(None).unwrap();
    match handle_json_msg(&JsonCmd::GetSub(ServerId::new("5".to_owned())), me, &mut p).unwrap() {
        ServerAction::GiveLocal(n) => assert_eq!(n, 5),
        other => panic!("unexpected {:?}", other),
    }
    assert_eq!(p.subscribers("5"), vec![me]);
    match handle_json_msg(&JsonCmd::UpdateRequest(ServerId::new("5".to_owned())), me, &mut p).unwrap() {
        ServerAction::UpdateLocal(n, subs) => {
            assert_eq!(n, 5);
            assert_eq!(subs, vec![me]);
        },
        other => panic!("unexpected {:?}", other),
    }
    assert!(matches!(handle_json_msg(&JsonCmd::Create, me, &mut p).unwrap(), ServerAction::CreateItem));
    assert!(matches!(handle_json_msg(&JsonCmd::Delete(ServerId::new("2".to_owned())), me, &mut p).unwrap(), ServerAction::DeleteLocal(2)));
    assert!(handle_json_msg(&JsonCmd::Get(ServerId::new("#m".to_owned())), me, &mut p).is_err());
    assert!(handle_json_msg(&JsonCmd::Unsub(ServerId::new("5".to_owned())), me, &mut p).is_err());
}

fn t(s: &str) -> CborValue {
    CborValue::Text(s.to_owned())
}

#[test]
fn renders_come_from_the_module_folder_config() {
    let render = CborValue::Mapping(vec![(t("name"), t("r1")), (t("main"), t("main.json"))]);
    let broken = CborValue::Mapping(vec![(t("name"), t("r2"))]);
    let web = CborValue::Mapping(vec![(t("name"), t("w1")), (t("main"), t("w.js")), (t("webroot"), t("www"))]);
    let data = CborValue::Mapping(vec![
        (t("render"), CborValue::Array(vec![render, broken])),
        (t("webcomponent"), CborValue::Array(vec![web])),
    ]);
    let rs = renders_from_mr("modA", &data);
    assert_eq!(rs.len(), 2);
    assert_eq!(rs[0].name, "r1");
    assert_eq!(rs[0].render_type, RenderType::JsonUi);
    assert_eq!(rs[0].webroot, "");
    assert_eq!(rs[0].folder, "modA");
    assert_eq!(rs[1].name, "w1");
    assert_eq!(rs[1].render_type, RenderType::WebComponent);
    assert_eq!(rs[1].webroot, "www");
}

#[test]
fn the_command_line_config_merges_the_file_and_the_string() {
    let file = ItemData::from_cbor(CborValue::Mapping(vec![(t("a"), t("1")), (t("b"), t("2"))]));
    let c = config_from_parts(Some(file), Some("b=3".to_owned())).unwrap();
    assert_eq!(c.get_path("a").unwrap(), ItemData::from_string("1"));
    assert_eq!(c.get_path("b").unwrap(), ItemData::from_cbor(CborValue::Integer(3)));
    assert_eq!(config_from_parts(None, None).unwrap(), ItemData::new());
    assert!(config_from_parts(None, Some("x=1:y".to_owned())).is_err());
}

#[test]
fn module_paths_and_names() {
    assert_eq!(default_store_path("/home/u").unwrap(), "/home/u/.mize");
    assert!(default_store_path("").is_err());
    assert_eq!(module_dir_config_id("a.b"), "self/config/module_dir/a/b");
    assert_eq!(module_archive_url("h:1", "abc", "m"), "http://h:1/mize/dist/abc-m.tar.gz");
    assert_eq!(module_archive_path("/s", "abc"), "/s/abc.tar.gz");
    assert_eq!(module_build_dir("/s", "abc"), "/s/modules/abc");
    assert_eq!(module_library_path("/p", "m"), "/p/lib/libmize_module_m.so");
    assert_eq!(module_symbol("m"), "get_mize_module_m");
}

#[test]
fn pings_pongs_and_failed_reads_are_answered_with_errors() {
    let loc = || MizeCodeLocation { file: "s.rs".to_owned(), line: 7, column: 1 };
    let table = vec![ServerError {
        category: "server".to_owned(),
        code: 11,
        message: "internal".to_owned(),
        extra_msg: vec![],
        code_location: None,
    }];
    match socket_answer(SocketEvent::Ping, &table, loc()) {
        SocketAnswer::SendError(e) => {
            assert_eq!(e.code, 11);
            assert_eq!(e.extra_msg, vec!["unhandeld WebSocket-Message type: Ping".to_owned()]);
        },
        _ => panic!("an error for a ping"),
    }
    match socket_answer(SocketEvent::Pong, &table, loc()) {
        SocketAnswer::SendError(e) => {
            assert_eq!(e.extra_msg, vec!["unhandeld WebSocket-Message type: Pong".to_owned()]);
        },
        _ => panic!("an error for a pong"),
    }
    match socket_answer(SocketEvent::ReadFailed, &table, loc()) {
        SocketAnswer::SendError(e) => {
            assert_eq!(e.code, 114);
            assert!(e.message.starts_with("The error with code 115 "));
            assert!(e.extra_msg.is_empty());
        },
        _ => panic!("an error for a failed read"),
    }
    assert!(matches!(socket_answer(SocketEvent::Text, &table, loc()), SocketAnswer::HandleText));
    assert!(matches!(socket_answer(SocketEvent::Close, &table, loc()), SocketAnswer::Close));
    assert!(matches!(socket_answer(SocketEvent::Binary, &table, loc()), SocketAnswer::Ignore));
}

#[test]
fn server_items_take_deltas_and_know_their_id() {
    let json = |t: &str| ItemData::from_json(t.to_owned()).unwrap().0;
    let mut item = ServerItem { json: json("{\"__item__\": \"7\", \"a\": {\"b\": 1}}") };
    assert_eq!(item.get_id().unwrap(), "7");
    let path = |p: &[&str]| p.iter().map(|s| s.to_string()).collect::<Vec<String>>();
    let delta = Delta { delta: vec![(path(&["a", "b"]), json("2")), (path(&["x", "y"]), json("true"))] };
    item.apply_delta(delta).unwrap();
    assert_eq!(
        ItemData::from_cbor(item.json.copy()),
        ItemData::from_json("{\"__item__\": \"7\", \"a\": {\"b\": 2}, \"x\": {\"y\": true}}".to_owned()).unwrap()
    );
    let delta = Delta { delta: vec![(path(&["a"]), CborValue::Null), (path(&["x"]), json("1"))] };
    item.apply_delta(delta).unwrap();
    assert_eq!(
        ItemData::from_cbor(item.json.copy()),
        ItemData::from_json("{\"__item__\": \"7\", \"x\": {\"y\": true}}".to_owned()).unwrap()
    );
    let delta = Delta { delta: vec![(path(&["__item__", "z"]), json("1"))] };
    assert!(item.apply_delta(delta).is_err());
    assert!(ServerItem { json: json("[1]") }.get_id().is_err());
    assert!(ServerItem { json: json("{\"__item__\": 3}") }.get_id().is_err());
}

#[test]
fn a_memory_item_store_counts_from_one_hundred() {
    let mut s = mize::itemstore::new_memory_store().unwrap();
    assert_eq!(s.next_id(), 100);
    assert_eq!(s.create_item().unwrap(), 101);
    assert!(!s.has_item(101).unwrap());
    assert!(s.get_item(101).is_err());
    assert!(s.set_item(101, CborValue::Integer(5)).is_err());
    assert!(s.has_item(101).unwrap());
    assert!(s.set_item(101, CborValue::Integer(6)).is_ok());
    assert_eq!(ItemData::from_cbor(s.get_item(101).unwrap()), ItemData::from_cbor(CborValue::Integer(6)));
    assert!(s.close().is_ok());
}
