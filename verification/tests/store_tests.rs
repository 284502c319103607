use dfx::config::dfinity::{
    CanisterDeclarationsConfig, ConfigCanistersCanister, ConfigCanistersCanisterRemote,
    ConfigInterface, NetworkType,
};
use dfx::error::ErrorCause;
use dfx::models::canister_id_store::{get_remote_ids, CanisterIdStore};
use dfx::name_map::NameMap;
use dfx::network::network_descriptor::NetworkDescriptor;
use dfx::principal::Principal;

const FIRST: &str = "rrkah-fqaaa-aaaaa-aaaaq-cai";
const SECOND: &str = "ryjl3-tyaaa-aaaaa-aaaba-cai";
const THIRD: &str = "aaaaa-aa";

fn network(name: &str, network_type: NetworkType) -> NetworkDescriptor {
    NetworkDescriptor {
        name: name.to_string(),
        providers: vec!["http://127.0.0.1:8000".to_string()],
        network_type,
        is_ic: false,
    }
}

fn principal(text: &str) -> Principal {
    Principal::from_text(text).unwrap()
}

fn manifest(remote: Vec<(&str, Vec<(&str, &str)>)>) -> ConfigInterface {
    let mut canisters = NameMap::new();
    for (name, ids) in remote {
        let mut id = NameMap::new();
        for (network_name, text) in ids {
            id.insert(network_name.to_string(), principal(text));
        }
        canisters.insert(
            name.to_string(),
            ConfigCanistersCanister {
                canister_type: None,
                declarations: CanisterDeclarationsConfig::default(),
                remote: Some(ConfigCanistersCanisterRemote { candid: None, id }),
                extras: NameMap::new(),
            },
        );
    }
    canisters.insert(
        "plain".to_string(),
        ConfigCanistersCanister {
            canister_type: None,
            declarations: CanisterDeclarationsConfig::default(),
            remote: None,
            extras: NameMap::new(),
        },
    );
    ConfigInterface {
        profile: None,
        version: None,
        dfx: None,
        canisters: Some(canisters),
        defaults: None,
        networks: None,
    }
}

#[test]
fn ids_of_a_persistent_network_are_kept_beside_the_manifest() {
    let descriptor = network("staging", NetworkType::Persistent);
    assert_eq!("canister_ids.json", CanisterIdStore::path_for(&descriptor));
    let store = CanisterIdStore::for_network(&descriptor, None).unwrap();
    assert_eq!("canister_ids.json", store.get_path());
}

#[test]
fn ids_of_an_ephemeral_network_are_kept_in_its_own_directory() {
    let descriptor = network("local", NetworkType::Ephemeral);
    assert_eq!(".dfx/local/canister_ids.json", CanisterIdStore::path_for(&descriptor));
    let store = CanisterIdStore::for_network(&descriptor, None).unwrap();
    assert_eq!(".dfx/local/canister_ids.json", store.get_path());
    let descriptor = network("staging", NetworkType::Ephemeral);
    assert_eq!(".dfx/staging/canister_ids.json", CanisterIdStore::path_for(&descriptor));
}

#[test]
fn store_without_a_file_is_empty() {
    let store = CanisterIdStore::for_network(&network("local", NetworkType::Ephemeral), None)
        .unwrap();
    assert_eq!(None, store.find("hello"));
    assert_eq!(None, store.get_name(FIRST));
    assert_eq!("{}", store.save_ids().unwrap());
}

#[test]
fn add_is_written_as_json() {
    let mut store =
        CanisterIdStore::for_network(&network("local", NetworkType::Ephemeral), None).unwrap();
    let content = store.add("hello", FIRST).unwrap();
    assert_eq!(
        "{\n  \"hello\": {\n    \"local\": \"rrkah-fqaaa-aaaaa-aaaaq-cai\"\n  }\n}",
        content
    );
    assert_eq!(Some(principal(FIRST)), store.find("hello"));
    let content = store.add("alpha", SECOND).unwrap();
    assert_eq!(
        "{\n  \"alpha\": {\n    \"local\": \"ryjl3-tyaaa-aaaaa-aaaba-cai\"\n  },\n  \"hello\": {\n    \"local\": \"rrkah-fqaaa-aaaaa-aaaaq-cai\"\n  }\n}",
        content
    );
    assert_eq!(content, store.save_ids().unwrap());
}

#[test]
fn add_then_load_round_trips() {
    let descriptor = network("local", NetworkType::Ephemeral);
    let mut store = CanisterIdStore::for_network(&descriptor, None).unwrap();
    store.add("hello", FIRST).unwrap();
    let content = store.add("world", SECOND).unwrap();

    assert!(store.reads_back(&content));
    let loaded = CanisterIdStore::for_network(&descriptor, Some(&content)).unwrap();
    assert!(loaded.reads_back(&content));
    assert_eq!(Some(principal(FIRST)), loaded.find("hello"));
    assert_eq!(Some(principal(SECOND)), loaded.find("world"));
    assert_eq!(None, loaded.find("other"));
    assert_eq!(content, loaded.save_ids().unwrap());
}

#[test]
fn add_overwrites_the_id_of_the_network_only() {
    let content = "{\"hello\": {\"local\": \"rrkah-fqaaa-aaaaa-aaaaq-cai\", \"staging\": \"aaaaa-aa\"}}";
    let mut store =
        CanisterIdStore::for_network(&network("local", NetworkType::Ephemeral), Some(content))
            .unwrap();
    assert_eq!(Some(principal(FIRST)), store.find("hello"));
    let written = store.add("hello", SECOND).unwrap();
    assert_eq!(Some(principal(SECOND)), store.find("hello"));
    assert_eq!(
        "{\n  \"hello\": {\n    \"local\": \"ryjl3-tyaaa-aaaaa-aaaba-cai\",\n    \"staging\": \"aaaaa-aa\"\n  }\n}",
        written
    );
}

#[test]
fn ids_are_scoped_to_the_network() {
    let content = "{\"hello\": {\"staging\": \"aaaaa-aa\"}}";
    let local =
        CanisterIdStore::for_network(&network("local", NetworkType::Ephemeral), Some(content))
            .unwrap();
    assert_eq!(None, local.find("hello"));
    assert_eq!(None, local.get_name(THIRD));
    let staging =
        CanisterIdStore::for_network(&network("staging", NetworkType::Persistent), Some(content))
            .unwrap();
    assert_eq!(Some(principal(THIRD)), staging.find("hello"));
    assert_eq!(Some(&"hello".to_string()), staging.get_name(THIRD));
}

#[test]
fn remove_takes_the_entry_of_the_network_only() {
    let content = "{\"hello\": {\"local\": \"rrkah-fqaaa-aaaaa-aaaaq-cai\", \"staging\": \"aaaaa-aa\"}, \"world\": {\"local\": \"ryjl3-tyaaa-aaaaa-aaaba-cai\"}}";
    let mut store =
        CanisterIdStore::for_network(&network("local", NetworkType::Ephemeral), Some(content))
            .unwrap();
    let written = store.remove("hello").unwrap();
    assert_eq!(None, store.find("hello"));
    assert_eq!(Some(principal(SECOND)), store.find("world"));
    assert_eq!(
        "{\n  \"hello\": {\n    \"staging\": \"aaaaa-aa\"\n  },\n  \"world\": {\n    \"local\": \"ryjl3-tyaaa-aaaaa-aaaba-cai\"\n  }\n}",
        written
    );
    let written = store.remove("world").unwrap();
    assert_eq!(
        "{\n  \"hello\": {\n    \"staging\": \"aaaaa-aa\"\n  },\n  \"world\": {}\n}",
        written
    );
    let again = store.remove("unknown").unwrap();
    assert_eq!(written, again);
}

#[test]
fn remote_id_is_found_before_a_local_one() {
    let descriptor = network("staging", NetworkType::Persistent);
    let config = manifest(vec![("ledger", vec![("staging", FIRST), ("ic", THIRD)])]);
    let stored = "{\"ledger\": {\"staging\": \"ryjl3-tyaaa-aaaaa-aaaba-cai\"}, \"backend\": {\"staging\": \"aaaaa-aa\"}}";
    let mut store = CanisterIdStore::for_env(&descriptor, Some(&config), Some(stored)).unwrap();

    assert_eq!(Some(principal(FIRST)), store.find("ledger"));
    assert_eq!(Some(principal(THIRD)), store.find("backend"));
    assert_eq!(principal(FIRST), store.get("ledger").unwrap());

    let written = store.remove("ledger").unwrap();
    assert_eq!(Some(principal(FIRST)), store.find("ledger"));
    assert_eq!(
        "{\n  \"backend\": {\n    \"staging\": \"aaaaa-aa\"\n  },\n  \"ledger\": {}\n}",
        written
    );
}

#[test]
fn remote_ids_are_never_written() {
    let descriptor = network("staging", NetworkType::Persistent);
    let config = manifest(vec![("ledger", vec![("staging", FIRST)])]);
    let mut store = CanisterIdStore::for_env(&descriptor, Some(&config), None).unwrap();
    assert_eq!("{}", store.save_ids().unwrap());
    let written = store.add("backend", SECOND).unwrap();
    assert_eq!(
        "{\n  \"backend\": {\n    \"staging\": \"ryjl3-tyaaa-aaaaa-aaaba-cai\"\n  }\n}",
        written
    );
    let written = store.add("ledger", THIRD).unwrap();
    assert_eq!(
        "{\n  \"backend\": {\n    \"staging\": \"ryjl3-tyaaa-aaaaa-aaaba-cai\"\n  },\n  \"ledger\": {\n    \"staging\": \"aaaaa-aa\"\n  }\n}",
        written
    );
    assert_eq!(Some(principal(FIRST)), store.find("ledger"));
}

#[test]
fn remote_id_of_another_network_does_not_count() {
    let descriptor = network("local", NetworkType::Ephemeral);
    let config = manifest(vec![("ledger", vec![("staging", FIRST)])]);
    let stored = "{\"ledger\": {\"local\": \"ryjl3-tyaaa-aaaaa-aaaba-cai\"}}";
    let store = CanisterIdStore::for_env(&descriptor, Some(&config), Some(stored)).unwrap();
    assert_eq!(Some(principal(SECOND)), store.find("ledger"));
    assert_eq!(Some(&"ledger".to_string()), store.get_name(SECOND));
    assert_eq!(None, store.get_name(FIRST));
}

#[test]
fn remote_ids_are_absent_where_no_canister_declares_any() {
    assert_eq!(None, get_remote_ids(None));
    let no_remote = manifest(vec![]);
    assert_eq!(None, get_remote_ids(Some(&no_remote)));
    let empty_remote = manifest(vec![("ledger", vec![])]);
    assert_eq!(None, get_remote_ids(Some(&empty_remote)));
    let no_canisters = ConfigInterface {
        profile: None,
        version: None,
        dfx: None,
        canisters: None,
        defaults: None,
        networks: None,
    };
    assert_eq!(None, get_remote_ids(Some(&no_canisters)));
}

#[test]
fn remote_ids_are_indexed_by_canister_and_network() {
    let config = manifest(vec![
        ("ledger", vec![("staging", FIRST), ("ic", THIRD)]),
        ("empty", vec![]),
        ("assets", vec![("ic", SECOND)]),
    ]);
    let ids = get_remote_ids(Some(&config)).unwrap();
    assert_eq!(2, ids.len());
    assert_eq!("assets", ids.key_at(0));
    assert_eq!("ledger", ids.key_at(1));
    assert_eq!(Some(&SECOND.to_string()), ids.get("assets").unwrap().get("ic"));
    assert_eq!(Some(&THIRD.to_string()), ids.get("ledger").unwrap().get("ic"));
    assert_eq!(Some(&FIRST.to_string()), ids.get("ledger").unwrap().get("staging"));
    assert!(ids.get("empty").is_none());
    assert!(ids.get("plain").is_none());
}

#[test]
fn name_of_an_id_is_the_first_in_the_order_of_the_names() {
    let stored = "{\"zeta\": {\"local\": \"aaaaa-aa\"}, \"beta\": {\"local\": \"aaaaa-aa\"}, \"alpha\": {\"local\": \"rrkah-fqaaa-aaaaa-aaaaq-cai\"}}";
    let store =
        CanisterIdStore::for_network(&network("local", NetworkType::Ephemeral), Some(stored))
            .unwrap();
    assert_eq!(Some(&"beta".to_string()), store.get_name(THIRD));
    assert_eq!(Some(&"alpha".to_string()), store.get_name(FIRST));
    assert_eq!(None, store.get_name(SECOND));
}

#[test]
fn name_of_an_id_is_looked_up_in_the_remote_ids_first() {
    let descriptor = network("staging", NetworkType::Persistent);
    let config = manifest(vec![("remote_one", vec![("staging", FIRST)])]);
    let stored = "{\"a_local_one\": {\"staging\": \"rrkah-fqaaa-aaaaa-aaaaq-cai\"}, \"b_local_one\": {\"staging\": \"aaaaa-aa\"}}";
    let store = CanisterIdStore::for_env(&descriptor, Some(&config), Some(stored)).unwrap();
    assert_eq!(Some(&"remote_one".to_string()), store.get_name(FIRST));
    assert_eq!(Some(&"b_local_one".to_string()), store.get_name(THIRD));
    let ids = CanisterIdStore::load_ids("canister_ids.json", stored).unwrap();
    assert_eq!(Some(&"a_local_one".to_string()), store.get_name_in(FIRST, &ids));
}

#[test]
fn stored_text_that_is_no_principal_is_not_found() {
    let stored = "{\"hello\": {\"local\": \"not a principal\"}}";
    let store =
        CanisterIdStore::for_network(&network("local", NetworkType::Ephemeral), Some(stored))
            .unwrap();
    assert_eq!(None, store.find("hello"));
    assert_eq!(Some(&"hello".to_string()), store.get_name("not a principal"));
}

#[test]
fn missing_id_names_the_create_command() {
    let local =
        CanisterIdStore::for_network(&network("local", NetworkType::Ephemeral), None).unwrap();
    let error = local.get("hello").unwrap_err();
    assert_eq!(
        ErrorCause::NotFoundError(
            "Cannot find canister id. Please issue 'dfx canister create hello'.".to_string()
        ),
        error.cause
    );
    assert_eq!(
        vec!["Failed to determine id for canister 'hello'.".to_string()],
        error.context
    );

    let staging =
        CanisterIdStore::for_network(&network("staging", NetworkType::Persistent), None).unwrap();
    let error = staging.get("hello").unwrap_err();
    assert_eq!(
        ErrorCause::NotFoundError(
            "Cannot find canister id. Please issue 'dfx canister --network staging create hello'."
                .to_string()
        ),
        error.cause
    );
}

#[test]
fn id_file_that_is_no_json_is_refused() {
    let descriptor = network("staging", NetworkType::Persistent);
    let error = CanisterIdStore::for_network(&descriptor, Some("{ not json")).unwrap_err();
    assert!(matches!(error.cause, ErrorCause::ConfigError(_)));
    assert_eq!(
        vec![
            "Cannot decode contents of file at 'canister_ids.json'.".to_string(),
            "Failed to load ids from storage at canister_ids.json.".to_string(),
            "Failed to load canister id store for network 'staging'.".to_string(),
        ],
        error.context
    );
    let error = CanisterIdStore::for_env(&descriptor, None, Some("[1, 2]")).unwrap_err();
    assert_eq!(4, error.context.len());
    assert_eq!("Failed to load canister id store.", error.context[3]);
}

#[test]
fn id_file_of_the_wrong_shape_is_refused() {
    let error = CanisterIdStore::load_ids("ids.json", "{\"hello\": \"aaaaa-aa\"}").unwrap_err();
    assert!(matches!(error.cause, ErrorCause::ConfigError(_)));
    let error = CanisterIdStore::load_ids("ids.json", "{\"hello\": {\"local\": 7}}").unwrap_err();
    assert!(matches!(error.cause, ErrorCause::ConfigError(_)));
    assert_eq!(
        vec![
            "Cannot decode contents of file at 'ids.json'.".to_string(),
            "Failed to load ids from storage at ids.json.".to_string(),
        ],
        error.context
    );
}

#[test]
fn id_file_is_read_by_canister_and_network() {
    let ids = CanisterIdStore::load_ids(
        "ids.json",
        "{\"b\": {\"y\": \"2\", \"x\": \"1\"}, \"a\": {}, \"b2\": {\"x\": \"3\"}}",
    )
    .unwrap();
    assert_eq!(3, ids.len());
    assert_eq!("a", ids.key_at(0));
    assert_eq!("b", ids.key_at(1));
    assert_eq!("b2", ids.key_at(2));
    assert!(ids.value_at(0).is_empty());
    assert_eq!(Some(&"1".to_string()), ids.get("b").unwrap().get("x"));
    assert_eq!(Some(&"2".to_string()), ids.get("b").unwrap().get("y"));
    assert_eq!(Some(&"3".to_string()), ids.get("b2").unwrap().get("x"));
}

#[test]
fn principal_is_read_from_its_textual_form_only() {
    assert_eq!("aaaaa-aa", Principal::from_text("aaaaa-aa").unwrap().to_text());
    assert_eq!(
        "2chl6-4hpzw-vqaaa-aaaaa-c",
        Principal::from_text("2chl6-4hpzw-vqaaa-aaaaa-c").unwrap().as_str()
    );
    assert!(Principal::from_text("").is_none());
    assert!(Principal::from_text("hello").is_none());
    assert!(Principal::from_text("AAAAA-AA").is_none());
    assert!(Principal::from_text("aaaaaaa").is_none());
    assert!(Principal::from_text("rrkah-fqaaa-aaaaa-aaaaq-caj").is_none());
}

#[test]
fn production_network_is_known_by_name_or_gateway() {
    assert!(NetworkDescriptor::is_ic("ic", &vec![]));
    assert!(NetworkDescriptor::is_ic("https://ic0.app", &vec![]));
    assert!(NetworkDescriptor::is_ic("https://ic0.app/", &vec![]));
    assert!(NetworkDescriptor::is_ic("mainnet", &vec!["https://ic0.app".to_string()]));
    assert!(NetworkDescriptor::is_ic("mainnet", &vec!["https://ic0.app/".to_string()]));
    assert!(!NetworkDescriptor::is_ic("local", &vec![]));
    assert!(!NetworkDescriptor::is_ic("IC", &vec!["http://127.0.0.1:8000".to_string()]));
    assert!(!NetworkDescriptor::is_ic(
        "mainnet",
        &vec!["https://ic0.app".to_string(), "https://ic0.app".to_string()]
    ));
}

#[test]
fn contents_that_hold_other_ids_do_not_read_back() {
    let descriptor = network("local", NetworkType::Ephemeral);
    let mut store = CanisterIdStore::for_network(&descriptor, None).unwrap();
    assert!(store.reads_back("{}"));
    let content = store.add("hello", FIRST).unwrap();
    assert!(store.reads_back(&content));
    assert!(store.reads_back("{\"hello\":{\"local\":\"rrkah-fqaaa-aaaaa-aaaaq-cai\"}}"));
    assert!(!store.reads_back("{}"));
    assert!(!store.reads_back("{ not json"));
    assert!(!store.reads_back("{\"hello\":{\"local\":\"aaaaa-aa\"}}"));
    assert!(!store.reads_back("{\"hello\":{\"staging\":\"rrkah-fqaaa-aaaaa-aaaaq-cai\"}}"));
    assert!(!store.reads_back("{\"world\":{\"local\":\"rrkah-fqaaa-aaaaa-aaaaq-cai\"}}"));
    assert!(!store.reads_back(
        "{\"hello\":{\"local\":\"rrkah-fqaaa-aaaaa-aaaaq-cai\"},\"world\":{}}"
    ));
    let later = store.add("world", SECOND).unwrap();
    assert!(store.reads_back(&later));
    assert!(!store.reads_back(&content));
}
