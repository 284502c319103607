use dfx::bitcoin::adapter::config::{default_nodes, Config, IncomingSource, FORCED_IDLE_SECONDS};
use dfx::error::{DfxError, ErrorCause};
use dfx::json::JsonValue;
use dfx::name_map::NameMap;
use dfx::text::{
    clone_strings, contains_text, join, starts_with_char, str_eq, text_order, TextOrder,
};

#[test]
fn texts_are_ordered_by_their_characters() {
    assert_eq!(TextOrder::Same, text_order("", ""));
    assert_eq!(TextOrder::Same, text_order("abc", "abc"));
    assert_eq!(TextOrder::Before, text_order("", "a"));
    assert_eq!(TextOrder::After, text_order("a", ""));
    assert_eq!(TextOrder::Before, text_order("ab", "abc"));
    assert_eq!(TextOrder::After, text_order("abd", "abc"));
    assert_eq!(TextOrder::Before, text_order("B", "a"));
    assert_eq!(TextOrder::Before, text_order("z", "é"));
    assert_eq!(TextOrder::After, text_order("\u{10000}", "\u{ffff}"));
    assert!(str_eq("dfx", "dfx"));
    assert!(!str_eq("dfx", "dfx "));
}

#[test]
fn text_order_agrees_with_the_order_of_strings() {
    let samples = ["", "a", "A", "ab", "b", "ba", "é", "日本", "\u{10000}", "a\u{0}", "~"];
    for a in samples {
        for b in samples {
            let expected = if a < b {
                TextOrder::Before
            } else if a == b {
                TextOrder::Same
            } else {
                TextOrder::After
            };
            assert_eq!(expected, text_order(a, b));
        }
    }
}

#[test]
fn join_puts_the_separator_between_neighbours() {
    let parts = vec!["A".to_string(), "B".to_string(), "C".to_string()];
    assert_eq!("A -> B -> C", join(&parts, " -> "));
    assert_eq!("A", join(&vec!["A".to_string()], " -> "));
    assert_eq!("", join(&vec![], " -> "));
    assert_eq!(", ", join(&vec![String::new(), String::new()], ", "));
    assert_eq!(parts, clone_strings(&parts));
    assert!(contains_text(&parts, "B"));
    assert!(!contains_text(&parts, "b"));
    assert!(starts_with_char("-x", '-'));
    assert!(!starts_with_char("x-", '-'));
}

#[test]
fn name_map_keeps_its_names_in_order() {
    let mut map = NameMap::new();
    assert!(map.is_empty());
    assert_eq!(None, map.insert("m".to_string(), 1));
    assert_eq!(None, map.insert("a".to_string(), 2));
    assert_eq!(None, map.insert("z".to_string(), 3));
    assert_eq!(None, map.insert("ab".to_string(), 4));
    assert_eq!(4, map.len());
    assert_eq!("a", map.key_at(0));
    assert_eq!("ab", map.key_at(1));
    assert_eq!("m", map.key_at(2));
    assert_eq!("z", map.key_at(3));
    assert_eq!(&2, map.value_at(0));
    assert_eq!(&3, map.value_at(3));
}

#[test]
fn name_map_holds_one_value_for_a_name() {
    let mut map = NameMap::new();
    map.insert("a".to_string(), 1);
    map.insert("b".to_string(), 2);
    assert_eq!(Some(1), map.insert("a".to_string(), 3));
    assert_eq!(2, map.len());
    assert_eq!(Some(&3), map.get("a"));
    assert_eq!(Some(&2), map.get("b"));
    assert_eq!(None, map.get("c"));
    assert!(map.contains_key("b"));
    assert_eq!(Some(2), map.remove("b"));
    assert_eq!(None, map.remove("b"));
    assert!(!map.contains_key("b"));
    assert_eq!(1, map.len());
    assert_eq!(Some(3), map.remove("a"));
    assert!(map.is_empty());
}

#[test]
fn json_values_decode_by_shape() {
    let list = JsonValue::Array(vec![
        JsonValue::Text("a".to_string()),
        JsonValue::Text("b".to_string()),
    ]);
    assert_eq!(Some(vec!["a".to_string(), "b".to_string()]), list.as_text_list());
    assert_eq!(Some(vec![]), JsonValue::Array(vec![]).as_text_list());
    assert_eq!(None, list.as_text());
    assert_eq!(None, JsonValue::Null.as_text_list());
    assert_eq!(None, JsonValue::Text("a".to_string()).as_text_list());
    assert_eq!(
        None,
        JsonValue::Array(vec![JsonValue::Text("a".to_string()), JsonValue::Null]).as_text_list()
    );
    assert_eq!(Some("a".to_string()), JsonValue::Text("a".to_string()).as_text());
    assert_eq!(None, JsonValue::Number("1".to_string()).as_text());
    assert_eq!(None, JsonValue::Bool(true).as_text());

    let mut members = NameMap::new();
    members.insert("x".to_string(), JsonValue::Bool(true));
    let object = JsonValue::Object(members);
    assert_eq!(Some(&JsonValue::Bool(true)), object.get("x"));
    assert_eq!(None, object.get("y"));
    assert_eq!(None, list.get("x"));
}

#[test]
fn error_report_lists_the_operations_from_the_outside_in() {
    let error = DfxError::new(ErrorCause::IoError("disk full".to_string()));
    assert_eq!("disk full", error.to_text());
    assert_eq!("disk full", error.message());
    let error = error
        .with_context("Failed to write ids.".to_string())
        .with_context("Failed to add canister.".to_string());
    assert_eq!(
        vec!["Failed to write ids.".to_string(), "Failed to add canister.".to_string()],
        error.context
    );
    assert_eq!("Failed to add canister.: Failed to write ids.: disk full", error.to_text());
    assert_eq!("disk full", error.message());
    assert_eq!(ErrorCause::IoError("disk full".to_string()), error.cause);
}

#[test]
fn bitcoin_adapter_defaults_to_the_local_regtest_node() {
    assert_eq!(vec!["127.0.0.1:18444".to_string()], default_nodes());
    assert_eq!(5, FORCED_IDLE_SECONDS);
    assert_eq!(IncomingSource::Systemd, IncomingSource::default());
}

#[test]
fn bitcoin_adapter_config_is_for_regtest() {
    let config = Config::new(default_nodes(), "/tmp/adapter.socket".to_string());
    assert_eq!(
        Config {
            network: "regtest".to_string(),
            nodes: vec!["127.0.0.1:18444".to_string()],
            idle_seconds: Some(5),
            incoming_source: IncomingSource::Path("/tmp/adapter.socket".to_string()),
        },
        config
    );
    assert_eq!(Some("/tmp/adapter.socket".to_string()), config.get_socket_path());
    let systemd = Config {
        network: "mainnet".to_string(),
        nodes: vec![],
        idle_seconds: None,
        incoming_source: IncomingSource::Systemd,
    };
    assert_eq!(None, systemd.get_socket_path());
}
