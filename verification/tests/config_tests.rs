use dfx::config::dfinity::{
    default_as_false, resolve_config_path, to_socket_addr, CanisterDeclarationsConfig, Config,
    ConfigCanistersCanister, ConfigCanistersCanisterRemote, ConfigDefaults, ConfigDefaultsBitcoin,
    ConfigDefaultsBootstrap, ConfigDefaultsBuild, ConfigDefaultsCanisterHttp,
    ConfigDefaultsReplica, ConfigInterface, ConfigLocalProvider, ConfigNetwork,
    ConfigNetworkProvider, NetworkType, Profile, ReplicaSubnetType, CONFIG_FILE_NAME,
    DEFAULT_IC_GATEWAY,
};
use dfx::error::{DfxError, ErrorCause};
use dfx::json::JsonValue;
use dfx::location::FileLocation;
use dfx::name_map::NameMap;
use dfx::principal::Principal;

fn empty_config() -> ConfigInterface {
    ConfigInterface {
        profile: None,
        version: None,
        dfx: None,
        canisters: None,
        defaults: None,
        networks: None,
    }
}

fn config_with_networks(networks: Vec<(&str, ConfigNetwork)>) -> ConfigInterface {
    let mut map = NameMap::new();
    for (name, network) in networks {
        map.insert(name.to_string(), network);
    }
    let mut config = empty_config();
    config.networks = Some(map);
    config
}

fn canister_with_extras(extras: Vec<(&str, JsonValue)>) -> ConfigCanistersCanister {
    let mut map = NameMap::new();
    for (key, value) in extras {
        map.insert(key.to_string(), value);
    }
    ConfigCanistersCanister {
        canister_type: None,
        declarations: CanisterDeclarationsConfig::default(),
        remote: None,
        extras: map,
    }
}

fn config_with_canisters(canisters: Vec<(&str, ConfigCanistersCanister)>) -> ConfigInterface {
    let mut map = NameMap::new();
    for (name, canister) in canisters {
        map.insert(name.to_string(), canister);
    }
    let mut config = empty_config();
    config.canisters = Some(map);
    config
}

fn object(members: Vec<(&str, JsonValue)>) -> JsonValue {
    let mut map = NameMap::new();
    for (key, value) in members {
        map.insert(key.to_string(), value);
    }
    JsonValue::Object(map)
}

fn text(s: &str) -> JsonValue {
    JsonValue::Text(s.to_string())
}

#[test]
fn find_dfinity_config_current_path() {
    // The working directory itself holds the manifest.
    assert_eq!(Some(0), resolve_config_path(&vec![true, false, false, false]));
}

#[test]
fn find_dfinity_config_parent() {
    // Only a directory below the working directory holds a manifest: none of
    // the working directory and its ancestors does.
    assert_eq!(None, resolve_config_path(&vec![false, false, false]));
}

#[test]
fn find_dfinity_config_subdir() {
    // The working directory is `baz/blue` below the directory of the manifest.
    assert_eq!(Some(2), resolve_config_path(&vec![false, false, true, false, false]));
}

#[test]
fn find_dfinity_config_takes_the_nearest() {
    assert_eq!(Some(1), resolve_config_path(&vec![false, true, true]));
    assert_eq!(None, resolve_config_path(&vec![]));
}

#[test]
fn config_with_local_bind_addr() {
    let config = config_with_networks(vec![(
        "local",
        ConfigNetwork::ConfigLocalProvider(ConfigLocalProvider::new(
            "localhost:8000".to_string(),
            None,
        )),
    )]);

    assert_eq!(
        config.get_local_bind_address("1.2.3.4:123").ok(),
        Some("localhost:8000".to_string())
    );
}

#[test]
fn config_returns_local_bind_address_if_no_local_network() {
    let config = config_with_networks(vec![]);

    assert_eq!(
        config.get_local_bind_address("1.2.3.4:123").ok(),
        Some("127.0.0.1:8000".to_string())
    );
}

#[test]
fn config_returns_local_bind_address_if_no_networks() {
    let config = empty_config();

    assert_eq!(
        config.get_local_bind_address("1.2.3.4:123").ok(),
        Some("127.0.0.1:8000".to_string())
    );
}

#[test]
fn local_bind_address_fails_for_a_provider_network() {
    let config = config_with_networks(vec![(
        "local",
        ConfigNetwork::ConfigNetworkProvider(ConfigNetworkProvider::new(
            vec!["https://1.2.3.4:5000".to_string()],
            None,
        )),
    )]);

    let error = config.get_local_bind_address("1.2.3.4:123").unwrap_err();
    assert_eq!(
        error.cause,
        ErrorCause::ConfigError(
            "Expected there to be a local network with a bind address.".to_string()
        )
    );
}

#[test]
fn local_defaults_to_ephemeral() {
    let config = config_with_networks(vec![(
        "local",
        ConfigNetwork::ConfigLocalProvider(ConfigLocalProvider::new(
            "localhost:8000".to_string(),
            None,
        )),
    )]);

    let network = config.get_network("local").unwrap();
    if let ConfigNetwork::ConfigLocalProvider(local_network) = network {
        assert_eq!(local_network.network_type, NetworkType::Ephemeral);
    } else {
        panic!("not a local provider");
    }
}

#[test]
fn local_can_override_to_persistent() {
    let config = config_with_networks(vec![(
        "local",
        ConfigNetwork::ConfigLocalProvider(ConfigLocalProvider::new(
            "localhost:8000".to_string(),
            Some(NetworkType::Persistent),
        )),
    )]);

    let network = config.get_network("local").unwrap();
    if let ConfigNetwork::ConfigLocalProvider(local_network) = network {
        assert_eq!(local_network.network_type, NetworkType::Persistent);
    } else {
        panic!("not a local provider");
    }
}

#[test]
fn network_defaults_to_persistent() {
    let config = config_with_networks(vec![(
        "somewhere",
        ConfigNetwork::ConfigNetworkProvider(ConfigNetworkProvider::new(
            vec!["https://1.2.3.4:5000".to_string()],
            None,
        )),
    )]);

    let network = config.get_network("somewhere").unwrap();
    if let ConfigNetwork::ConfigNetworkProvider(network_provider) = network {
        assert_eq!(network_provider.network_type, NetworkType::Persistent);
    } else {
        panic!("not a network provider");
    }
}

#[test]
fn network_can_override_to_ephemeral() {
    let config = config_with_networks(vec![(
        "staging",
        ConfigNetwork::ConfigNetworkProvider(ConfigNetworkProvider::new(
            vec!["https://1.2.3.4:5000".to_string()],
            Some(NetworkType::Ephemeral),
        )),
    )]);

    let network = config.get_network("staging").unwrap();
    if let ConfigNetwork::ConfigNetworkProvider(network_provider) = network {
        assert_eq!(network_provider.network_type, NetworkType::Ephemeral);
    } else {
        panic!("not a network provider");
    }

    assert_eq!(
        config.get_network("staging").unwrap(),
        ConfigNetwork::ConfigNetworkProvider(ConfigNetworkProvider {
            providers: vec![String::from("https://1.2.3.4:5000")],
            network_type: NetworkType::Ephemeral,
        })
    );
}

#[test]
fn get_correct_initialization_values() {
    let config_interface = config_with_canisters(vec![(
        "test_project",
        canister_with_extras(vec![(
            "initialization_values",
            object(vec![
                ("compute_allocation", text("100")),
                ("memory_allocation", text("8GB")),
            ]),
        )]),
    )]);

    let compute_allocation = config_interface
        .get_compute_allocation("test_project")
        .unwrap()
        .unwrap();
    assert_eq!("100", compute_allocation);

    let memory_allocation = config_interface
        .get_memory_allocation("test_project")
        .unwrap()
        .unwrap();
    assert_eq!("8GB", memory_allocation);

    let config_interface =
        config_with_canisters(vec![("test_project_two", canister_with_extras(vec![]))]);
    let compute_allocation = config_interface
        .get_compute_allocation("test_project_two")
        .unwrap();
    let memory_allocation = config_interface
        .get_memory_allocation("test_project_two")
        .unwrap();
    assert_eq!(None, compute_allocation);
    assert_eq!(None, memory_allocation);
}

#[test]
fn initialization_value_of_the_wrong_type_is_a_config_error() {
    let config = config_with_canisters(vec![(
        "backend",
        canister_with_extras(vec![(
            "initialization_values",
            object(vec![("freezing_threshold", JsonValue::Number("7".to_string()))]),
        )]),
    )]);

    let error = config.get_freezing_threshold("backend").unwrap_err();
    assert_eq!(
        error,
        DfxError {
            cause: ErrorCause::ConfigError(
                "Field freezing_threshold is of the wrong type".to_string()
            ),
            context: vec!["Failed to get freezing threshold for 'backend'.".to_string()],
        }
    );
    assert_eq!(None, config.get_compute_allocation("backend").unwrap());
}

#[test]
fn initialization_values_that_are_no_object_hold_nothing() {
    let config = config_with_canisters(vec![(
        "backend",
        canister_with_extras(vec![("initialization_values", text("none"))]),
    )]);

    assert_eq!(None, config.get_memory_allocation("backend").unwrap());
}

#[test]
fn initialization_value_of_an_unknown_canister_is_not_found() {
    let config = config_with_canisters(vec![("backend", canister_with_extras(vec![]))]);

    let error = config.get_compute_allocation("frontend").unwrap_err();
    assert_eq!(
        error.cause,
        ErrorCause::NotFoundError("Cannot find canister 'frontend'.".to_string())
    );
    assert_eq!(
        error.context,
        vec!["Failed to get compute allocation for 'frontend'.".to_string()]
    );

    let error = empty_config().get_memory_allocation("frontend").unwrap_err();
    assert_eq!(
        error.cause,
        ErrorCause::ConfigError("No canisters in the configuration file.".to_string())
    );
}

#[test]
fn local_without_declaration_is_ephemeral_on_the_default_address() {
    let expected = ConfigNetwork::ConfigLocalProvider(ConfigLocalProvider {
        bind: "127.0.0.1:8000".to_string(),
        network_type: NetworkType::Ephemeral,
    });
    assert_eq!(Some(expected), empty_config().get_network("local"));

    let config = config_with_networks(vec![(
        "staging",
        ConfigNetwork::ConfigNetworkProvider(ConfigNetworkProvider::new(vec![], None)),
    )]);
    assert_eq!(
        NetworkType::Ephemeral,
        match config.get_network("local").unwrap() {
            ConfigNetwork::ConfigLocalProvider(local) => local.network_type,
            ConfigNetwork::ConfigNetworkProvider(_) => panic!("not a local provider"),
        }
    );
}

#[test]
fn ic_is_fixed_whatever_the_manifest_declares() {
    let expected = ConfigNetwork::ConfigNetworkProvider(ConfigNetworkProvider {
        providers: vec![DEFAULT_IC_GATEWAY.to_string()],
        network_type: NetworkType::Persistent,
    });
    assert_eq!("https://ic0.app", DEFAULT_IC_GATEWAY);
    assert_eq!(Some(expected), empty_config().get_network("ic"));

    let overridden = config_with_networks(vec![(
        "ic",
        ConfigNetwork::ConfigLocalProvider(ConfigLocalProvider::new(
            "localhost:8000".to_string(),
            Some(NetworkType::Ephemeral),
        )),
    )]);
    let expected = ConfigNetwork::ConfigNetworkProvider(ConfigNetworkProvider {
        providers: vec!["https://ic0.app".to_string()],
        network_type: NetworkType::Persistent,
    });
    assert_eq!(Some(expected), overridden.get_network("ic"));
}

#[test]
fn unknown_network_is_not_found() {
    let config = config_with_networks(vec![(
        "staging",
        ConfigNetwork::ConfigNetworkProvider(ConfigNetworkProvider::new(vec![], None)),
    )]);
    assert_eq!(None, config.get_network("production"));
    assert_eq!(None, empty_config().get_network(""));
}

#[test]
fn version_defaults_to_one() {
    let mut config = empty_config();
    assert_eq!(1, config.get_version());
    config.version = Some(7);
    assert_eq!(7, config.get_version());
    assert_eq!(None, config.get_dfx());
    config.dfx = Some("0.10.0".to_string());
    assert_eq!(Some("0.10.0".to_string()), config.get_dfx());
    config.profile = Some(Profile::Release);
    assert_eq!(Some(Profile::Release), config.profile);
    assert_eq!("dfx.json", CONFIG_FILE_NAME);
}

#[test]
fn defaults_that_are_left_out_are_empty() {
    let config = empty_config();
    let defaults = config.get_defaults();
    assert_eq!(
        &ConfigDefaults {
            bitcoin: None,
            bootstrap: None,
            build: None,
            canister_http: None,
            replica: None,
        },
        defaults
    );
    assert_eq!(
        &ConfigDefaultsBitcoin { enabled: false, nodes: None },
        defaults.get_bitcoin()
    );
    assert_eq!(
        &ConfigDefaultsBootstrap { ip: None, port: None, timeout: None },
        defaults.get_bootstrap()
    );
    assert_eq!(
        &ConfigDefaultsBuild { packtool: None, args: None },
        defaults.get_build()
    );
    assert_eq!(
        &ConfigDefaultsCanisterHttp { enabled: false },
        defaults.get_canister_http()
    );
    assert_eq!(
        &ConfigDefaultsReplica { port: None, subnet_type: None },
        defaults.get_replica()
    );
    assert!(!default_as_false());
}

#[test]
fn defaults_that_are_given_are_returned() {
    let replica = ConfigDefaultsReplica {
        port: Some(8080),
        subnet_type: Some(ReplicaSubnetType::System),
    };
    let build = ConfigDefaultsBuild {
        packtool: Some("vessel sources".to_string()),
        args: Some(String::new()),
    };
    let mut config = empty_config();
    config.defaults = Some(ConfigDefaults {
        bitcoin: Some(ConfigDefaultsBitcoin {
            enabled: true,
            nodes: Some(vec!["127.0.0.1:18444".to_string()]),
        }),
        bootstrap: None,
        build: Some(build.clone()),
        canister_http: Some(ConfigDefaultsCanisterHttp { enabled: true }),
        replica: Some(replica),
    });
    let defaults = config.get_defaults();
    assert_eq!(&replica, defaults.get_replica());
    assert_eq!(&build, defaults.get_build());
    assert!(defaults.get_bitcoin().enabled);
    assert!(defaults.get_canister_http().enabled);
    assert_eq!(None, defaults.get_bootstrap().port);
}

#[test]
fn empty_build_settings_count_as_left_out() {
    let build = ConfigDefaultsBuild {
        packtool: Some("vessel sources".to_string()),
        args: Some(String::new()),
    };
    assert_eq!(Some("vessel sources".to_string()), build.get_packtool());
    assert_eq!(None, build.get_args());

    let build = ConfigDefaultsBuild { packtool: Some(String::new()), args: None };
    assert_eq!(None, build.get_packtool());
    assert_eq!(None, build.get_args());

    let build = ConfigDefaultsBuild { packtool: None, args: Some("--debug".to_string()) };
    assert_eq!(None, build.get_packtool());
    assert_eq!(Some("--debug".to_string()), build.get_args());
}

#[test]
fn subnet_types_are_named_for_the_replica_starter() {
    assert_eq!("system", ReplicaSubnetType::System.as_ic_starter_string());
    assert_eq!("application", ReplicaSubnetType::Application.as_ic_starter_string());
    assert_eq!(
        "verified_application",
        ReplicaSubnetType::VerifiedApplication.as_ic_starter_string()
    );
    assert_eq!(ReplicaSubnetType::Application, ReplicaSubnetType::default());
    assert_eq!(NetworkType::Ephemeral, NetworkType::default());
    assert_eq!(NetworkType::Ephemeral, NetworkType::ephemeral());
    assert_eq!(NetworkType::Persistent, NetworkType::persistent());
}

#[test]
fn socket_address_is_the_first_that_was_resolved() {
    let resolved: Result<Vec<(u32, u16)>, String> = Ok(vec![(0x7f000001, 8000), (1, 8000)]);
    assert_eq!(Ok((0x7f000001, 8000)), to_socket_addr(resolved));
}

#[test]
fn socket_address_of_an_empty_resolution_is_not_found() {
    let resolved: Result<Vec<(u32, u16)>, String> = Ok(vec![]);
    let error = to_socket_addr(resolved).unwrap_err();
    assert_eq!(ErrorCause::NotFoundError("Empty iterator".to_string()), error.cause);
    assert!(error.context.is_empty());
}

#[test]
fn socket_address_of_a_failed_resolution_is_an_io_error() {
    let resolved: Result<Vec<(u32, u16)>, String> = Err("invalid socket address".to_string());
    let error = to_socket_addr(resolved).unwrap_err();
    assert_eq!(ErrorCause::IoError("invalid socket address".to_string()), error.cause);
}

#[test]
fn remote_canister_id_is_read_from_the_declaration() {
    let id = Principal::from_text("rrkah-fqaaa-aaaaa-aaaaq-cai").unwrap();
    let mut ids = NameMap::new();
    ids.insert("staging".to_string(), id.clone());
    let mut remote_canister = canister_with_extras(vec![]);
    remote_canister.remote = Some(ConfigCanistersCanisterRemote { candid: None, id: ids });
    let config = config_with_canisters(vec![
        ("ledger", remote_canister),
        ("backend", canister_with_extras(vec![])),
    ]);

    assert_eq!(Some(id), config.get_remote_canister_id("ledger", "staging").unwrap());
    assert_eq!(None, config.get_remote_canister_id("ledger", "ic").unwrap());
    assert_eq!(None, config.get_remote_canister_id("backend", "staging").unwrap());
    assert!(config.is_remote_canister("ledger", "staging").unwrap());
    assert!(!config.is_remote_canister("ledger", "local").unwrap());
    assert!(!config.is_remote_canister("backend", "staging").unwrap());
}

#[test]
fn remote_canister_id_of_an_unknown_canister_is_not_found() {
    let config = config_with_canisters(vec![("backend", canister_with_extras(vec![]))]);

    let error = config.get_remote_canister_id("ledger", "ic").unwrap_err();
    assert_eq!(
        error,
        DfxError {
            cause: ErrorCause::NotFoundError("Canister ledger not found in dfx.json".to_string()),
            context: vec![
                "Failed to figure out if canister 'ledger' has a remote id on network 'ic'."
                    .to_string()
            ],
        }
    );

    let error = config.is_remote_canister("ledger", "ic").unwrap_err();
    assert_eq!(
        error.context,
        vec![
            "Failed to figure out if canister 'ledger' has a remote id on network 'ic'."
                .to_string(),
            "Failed while determining if canister 'ledger' is remote on network 'ic'."
                .to_string(),
        ]
    );

    let error = empty_config().get_remote_canister_id("ledger", "ic").unwrap_err();
    assert_eq!(
        error.cause,
        ErrorCause::ConfigError("No canisters in the configuration file.".to_string())
    );
}

#[test]
fn manifest_knows_its_project_root() {
    let location = FileLocation {
        directory: "/home/project".to_string(),
        file_name: "dfx.json".to_string(),
    };
    let json = object(vec![("version", JsonValue::Number("1".to_string()))]);
    let mut interface = empty_config();
    interface.version = Some(1);
    let mut config = Config::new(location.clone(), json, interface);

    assert_eq!(&location, config.get_path());
    assert_eq!("/home/project", config.get_project_root());
    assert_eq!(
        FileLocation { directory: "/home/project".to_string(), file_name: ".dfx".to_string() },
        config.get_temp_path()
    );
    assert_eq!(1, config.get_config().get_version());
    assert_eq!(
        Some(&JsonValue::Number("1".to_string())),
        config.get_json().get("version")
    );

    *config.get_mut_json() = object(vec![("dfx", text("0.10.0"))]);
    assert_eq!(Some(&text("0.10.0")), config.get_json().get("dfx"));
    assert_eq!(None, config.get_json().get("version"));
    assert_eq!(&location, config.get_path());
    assert_eq!(1, config.get_config().get_version());
}
