use dfx::builders::assets::{
    build_frontend, check_frontend_build, check_output_directory, copy_action, copy_assets,
    delete_output_directory, entries_to_unpack, is_hidden, ArchiveEntry, AssetsBuilder, BuildStep,
    CopyAction, FrontendCommand,
};
use dfx::builders::output::{BuildConfig, IdlBuildOutput, WasmBuildOutput};
use dfx::location::FileLocation;
use dfx::builders::selection::select_builder;
use dfx::canister_info::{AssetsCanisterInfo, CanisterInfo};
use dfx::config::dfinity::CanisterDeclarationsConfig;
use dfx::error::{DfxError, ErrorCause};
use dfx::json::JsonValue;
use dfx::models::canister::{Canister, CanisterPool};
use dfx::name_map::NameMap;
use dfx::principal::Principal;

const FIRST: &str = "rrkah-fqaaa-aaaaa-aaaaq-cai";
const SECOND: &str = "ryjl3-tyaaa-aaaaa-aaaba-cai";

fn info(name: &str, canister_type: &str, extras: Vec<(&str, JsonValue)>) -> CanisterInfo {
    let mut map = NameMap::new();
    for (key, value) in extras {
        map.insert(key.to_string(), value);
    }
    CanisterInfo {
        name: name.to_string(),
        canister_type: canister_type.to_string(),
        workspace_root: "/home/project".to_string(),
        output_root: "/home/project/.dfx/local/canisters/frontend".to_string(),
        canister_id: Principal::from_text(FIRST),
        declarations_config: CanisterDeclarationsConfig {
            output: Some("src/declarations/frontend".to_string()),
            bindings: None,
            env_override: None,
        },
        extras: map,
    }
}

fn names(list: &[&str]) -> JsonValue {
    JsonValue::Array(list.iter().map(|name| JsonValue::Text(name.to_string())).collect())
}

fn pool(canisters: &[(&str, &str)]) -> CanisterPool {
    CanisterPool {
        canisters: canisters
            .iter()
            .map(|(name, id)| Canister {
                name: name.to_string(),
                canister_id: Principal::from_text(id).unwrap(),
            })
            .collect(),
    }
}

fn config() -> BuildConfig {
    BuildConfig { network_name: "local".to_string() }
}

fn assets() -> AssetsCanisterInfo {
    AssetsCanisterInfo {
        source_paths: vec!["/home/project/src/assets".to_string()],
        output_assets_path: "/home/project/.dfx/local/canisters/frontend/assets".to_string(),
    }
}

fn archive() -> Vec<ArchiveEntry> {
    vec![
        ArchiveEntry { path: "./".to_string(), is_directory: true },
        ArchiveEntry { path: "assetstorage.did".to_string(), is_directory: false },
        ArchiveEntry { path: "assetstorage.wasm".to_string(), is_directory: false },
    ]
}

#[test]
fn assets_builder_claims_asset_canisters_only() {
    let builder = AssetsBuilder::new();
    assert!(builder.supports(&info("frontend", "assets", vec![])));
    assert!(!builder.supports(&info("backend", "motoko", vec![])));
    assert!(!builder.supports(&info("frontend", "Assets", vec![])));
    assert!(!builder.supports(&info("frontend", "", vec![])));
}

#[test]
fn dependencies_are_resolved_to_ids_in_order() {
    let builder = AssetsBuilder::new();
    let pool = pool(&[("backend", FIRST), ("ledger", SECOND), ("backend", "aaaaa-aa")]);
    let frontend = info("frontend", "assets", vec![("dependencies", names(&["ledger", "backend"]))]);
    assert_eq!(
        vec![Principal::from_text(SECOND).unwrap(), Principal::from_text(FIRST).unwrap()],
        builder.get_dependencies(&pool, &frontend).unwrap()
    );
    assert_eq!(
        builder.get_dependencies(&pool, &frontend).unwrap(),
        builder.postbuild(&pool, &frontend, &config()).unwrap()
    );
    let alone = info("frontend", "assets", vec![]);
    assert!(builder.get_dependencies(&pool, &alone).unwrap().is_empty());
}

#[test]
fn unresolved_dependency_names_both_canisters() {
    let builder = AssetsBuilder::new();
    let pool = pool(&[("backend", FIRST)]);
    let frontend = info(
        "frontend",
        "assets",
        vec![("dependencies", names(&["backend", "ledger", "other"]))],
    );
    let error = builder.get_dependencies(&pool, &frontend).unwrap_err();
    assert_eq!(
        error,
        DfxError {
            cause: ErrorCause::NotFoundError(
                "A canister with the name 'ledger' was not found in the current project."
                    .to_string()
            ),
            context: vec![
                "Failed to collect dependencies (canister ids) of canister frontend.".to_string(),
                "Failed to create AssetBuilderExtra for canister 'frontend'.".to_string(),
                "Failed to get dependencies for canister 'frontend'.".to_string(),
            ],
        }
    );
    let error = builder.postbuild(&pool, &frontend, &config()).unwrap_err();
    assert_eq!(1, error.context.len());
}

#[test]
fn dependencies_of_the_wrong_shape_are_refused() {
    let builder = AssetsBuilder::new();
    let frontend = info(
        "frontend",
        "assets",
        vec![("dependencies", JsonValue::Text("backend".to_string()))],
    );
    let error = builder.get_dependencies(&pool(&[("backend", FIRST)]), &frontend).unwrap_err();
    assert_eq!(
        ErrorCause::ConfigError("Field 'dependencies' is of the wrong type.".to_string()),
        error.cause
    );
}

#[test]
fn extra_field_that_is_absent_decodes_to_nothing() {
    let canister = info("frontend", "assets", vec![("source", names(&["src/assets", "dist"]))]);
    assert_eq!(Ok(None), canister.get_extra_optional_text_list("dependencies"));
    assert_eq!(Ok(None), canister.get_extra_optional_text("entrypoint"));
    assert_eq!(None, canister.get_extra_value("dependencies"));
    assert_eq!(
        Ok(Some(vec!["src/assets".to_string(), "dist".to_string()])),
        canister.get_extra_optional_text_list("source")
    );
}

#[test]
fn extra_field_of_the_wrong_shape_is_a_config_error() {
    let canister = info(
        "frontend",
        "assets",
        vec![
            ("source", JsonValue::Text("src/assets".to_string())),
            ("entrypoint", names(&["index.html"])),
            ("mixed", JsonValue::Array(vec![JsonValue::Text("a".to_string()), JsonValue::Bool(true)])),
        ],
    );
    let error = canister.get_extra_optional_text_list("source").unwrap_err();
    assert_eq!(
        ErrorCause::ConfigError("Field 'source' is of the wrong type.".to_string()),
        error.cause
    );
    let error = canister.get_extra_optional_text("entrypoint").unwrap_err();
    assert_eq!(
        ErrorCause::ConfigError("Field 'entrypoint' is of the wrong type.".to_string()),
        error.cause
    );
    assert!(canister.get_extra_optional_text_list("mixed").is_err());
    assert_eq!(Ok(Some("src/assets".to_string())), canister.get_extra_optional_text("source"));
}

#[test]
fn build_output_lies_in_the_output_root() {
    let builder = AssetsBuilder::new();
    let frontend = info("frontend", "assets", vec![]);
    let plan = builder.build(&pool(&[]), &frontend, &assets(), &config(), &archive());
    let output = plan.output;
    assert_eq!(Principal::from_text(FIRST).unwrap(), output.canister_id);
    assert_eq!(
        WasmBuildOutput::File(FileLocation {
            directory: "/home/project/.dfx/local/canisters/frontend".to_string(),
            file_name: "assetstorage.wasm".to_string(),
        }),
        output.wasm
    );
    assert_eq!(
        IdlBuildOutput::File(FileLocation {
            directory: "/home/project/.dfx/local/canisters/frontend".to_string(),
            file_name: "assetstorage.did".to_string(),
        }),
        output.idl
    );
}

#[test]
fn build_unpacks_and_then_clears_the_old_assets() {
    let builder = AssetsBuilder::new();
    let frontend = info("frontend", "assets", vec![]);
    let plan = builder.build(&pool(&[]), &frontend, &assets(), &config(), &archive());
    assert_eq!(
        vec![
            BuildStep::Unpack {
                directory: "/home/project/.dfx/local/canisters/frontend".to_string(),
                entries: vec![1, 2],
            },
            BuildStep::ClearDirectory {
                path: "/home/project/.dfx/local/canisters/frontend/assets".to_string(),
            },
        ],
        plan.steps
    );
}

#[test]
fn archive_directories_are_not_unpacked() {
    let entry = |path: &str, is_directory: bool| ArchiveEntry { path: path.to_string(), is_directory };
    let entries = vec![
        entry("./", true),
        entry("assetstorage.wasm", false),
        entry("docs/", true),
        entry("assetstorage.did", false),
    ];
    assert_eq!(vec![1, 3], entries_to_unpack(&entries));
    assert!(entries_to_unpack(&vec![]).is_empty());
    assert!(entries_to_unpack(&vec![entry("a/", true)]).is_empty());
}

#[test]
fn output_directory_outside_the_workspace_is_a_path_safety_error() {
    let frontend = info("frontend", "assets", vec![]);
    let error = delete_output_directory(&frontend, Some("/tmp/elsewhere/assets")).unwrap_err();
    assert_eq!(
        error,
        DfxError {
            cause: ErrorCause::PathSafetyError(
                "Directory at '/tmp/elsewhere/assets' is outside the workspace root.".to_string()
            ),
            context: vec!["Failed to delete output directory for canister 'frontend'.".to_string()],
        }
    );
    assert!(delete_output_directory(&frontend, Some("/home/project-other/assets")).is_err());
    assert!(delete_output_directory(&frontend, Some("/home")).is_err());
    let error = check_output_directory("frontend", "/tmp/elsewhere/assets", false).unwrap_err();
    assert!(matches!(error.cause, ErrorCause::PathSafetyError(_)));
}

#[test]
fn output_directory_inside_the_workspace_is_deleted() {
    let frontend = info("frontend", "assets", vec![]);
    assert_eq!(
        Ok(Some("/home/project/.dfx/local/canisters/frontend/assets".to_string())),
        delete_output_directory(
            &frontend,
            Some("/home/project/.dfx/local/canisters/frontend/assets")
        )
    );
    assert_eq!(
        Ok(Some("/home/project".to_string())),
        delete_output_directory(&frontend, Some("/home/project"))
    );
    assert_eq!(
        Ok("/home/project/dist".to_string()),
        check_output_directory("frontend", "/home/project/dist", true)
    );
}

#[test]
fn output_directory_that_does_not_exist_is_left_alone() {
    let frontend = info("frontend", "assets", vec![]);
    assert_eq!(Ok(None), delete_output_directory(&frontend, None));
}

#[test]
fn hidden_entries_start_with_a_dot() {
    assert!(is_hidden(".git"));
    assert!(is_hidden("."));
    assert!(is_hidden(".env.local"));
    assert!(!is_hidden("index.html"));
    assert!(!is_hidden("a.b"));
    assert!(!is_hidden(""));
}

#[test]
fn existing_destinations_are_never_overwritten() {
    assert_eq!(CopyAction::Skip, copy_action(true, true));
    assert_eq!(CopyAction::Skip, copy_action(true, false));
    assert_eq!(CopyAction::CreateDirectory, copy_action(false, true));
    assert_eq!(CopyAction::CopyFile, copy_action(false, false));
}

#[test]
fn missing_source_is_a_warning() {
    let assets = AssetsCanisterInfo {
        source_paths: vec![
            "/home/project/src/assets".to_string(),
            "/home/project/dist".to_string(),
            "/home/project/public".to_string(),
        ],
        output_assets_path: "/home/project/.dfx/local/canisters/frontend/assets".to_string(),
    };
    let plan = copy_assets(&assets, &vec![true, false, true]);
    assert_eq!(vec![0, 2], plan.sources);
    assert_eq!(
        vec!["Source path \"/home/project/dist\" does not exist.".to_string()],
        plan.warnings
    );
    let plan = copy_assets(&assets, &vec![false, false, false]);
    assert!(plan.sources.is_empty());
    assert_eq!(3, plan.warnings.len());
    assert_eq!("Source path \"/home/project/public\" does not exist.", plan.warnings[2]);
}

#[test]
fn frontend_is_built_only_with_a_package_json() {
    let vars = vec![("CANISTER_ID_BACKEND".to_string(), FIRST.to_string())];
    assert_eq!(None, build_frontend(false, "/home/project", "local", vars.clone()));
    assert_eq!(
        Some(FrontendCommand {
            program: "npm".to_string(),
            args: vec!["run".to_string(), "build".to_string()],
            env: vars.clone(),
            current_dir: "/home/project".to_string(),
        }),
        build_frontend(true, "/home/project", "local", vars)
    );
}

#[test]
fn frontend_for_the_production_network_is_built_in_production_mode() {
    let vars = vec![
        ("CANISTER_ID_BACKEND".to_string(), FIRST.to_string()),
        ("DFX_NETWORK".to_string(), "ic".to_string()),
    ];
    let command = build_frontend(true, "/home/project", "ic", vars.clone()).unwrap();
    assert_eq!(
        vec![
            ("NODE_ENV".to_string(), "production".to_string()),
            ("CANISTER_ID_BACKEND".to_string(), FIRST.to_string()),
            ("DFX_NETWORK".to_string(), "ic".to_string()),
        ],
        command.env
    );
    let command = build_frontend(true, "/home/project", "staging", vars.clone()).unwrap();
    assert_eq!(vars, command.env);
}

#[test]
fn failed_frontend_build_is_a_command_error() {
    let error = check_frontend_build(
        "staging",
        "\"npm\" \"run\" \"build\"".to_string(),
        false,
        Some(2),
        "building".to_string(),
        "missing script".to_string(),
    )
    .unwrap_err();
    assert_eq!(
        error,
        DfxError {
            cause: ErrorCause::CommandError(
                "\"npm\" \"run\" \"build\"".to_string(),
                Some(2),
                "building".to_string(),
                "missing script".to_string()
            ),
            context: vec!["Failed to build frontend for network 'staging'.".to_string()],
        }
    );
    assert_eq!("\"npm\" \"run\" \"build\"", error.message());
}

#[test]
fn frontend_build_that_wrote_to_stderr_is_a_warning() {
    assert_eq!(
        Ok(Some("deprecated".to_string())),
        check_frontend_build(
            "local",
            "npm".to_string(),
            true,
            Some(0),
            "done".to_string(),
            "deprecated".to_string()
        )
    );
    assert_eq!(
        Ok(None),
        check_frontend_build(
            "local",
            "npm".to_string(),
            true,
            Some(0),
            "done".to_string(),
            String::new()
        )
    );
}

#[test]
fn interface_declaration_is_named_after_the_canister() {
    let builder = AssetsBuilder::new();
    let frontend = info("frontend", "assets", vec![]);
    let plan = builder
        .generate_idl(&pool(&[]), &frontend, &assets(), &config(), &archive())
        .unwrap();
    let renamed = FileLocation {
        directory: "src/declarations/frontend".to_string(),
        file_name: "frontend.did".to_string(),
    };
    assert_eq!(renamed, plan.idl);
    assert_eq!(
        vec![
            BuildStep::Unpack {
                directory: "src/declarations/frontend".to_string(),
                entries: vec![1, 2],
            },
            BuildStep::ClearDirectory {
                path: "/home/project/.dfx/local/canisters/frontend/assets".to_string(),
            },
            BuildStep::RemoveFile {
                file: FileLocation {
                    directory: "src/declarations/frontend".to_string(),
                    file_name: "assetstorage.wasm".to_string(),
                },
            },
            BuildStep::RenameFile {
                from: FileLocation {
                    directory: "src/declarations/frontend".to_string(),
                    file_name: "assetstorage.did".to_string(),
                },
                to: renamed,
            },
        ],
        plan.steps
    );
}

#[test]
fn interface_declaration_needs_an_output_directory() {
    let builder = AssetsBuilder::new();
    let mut frontend = info("frontend", "assets", vec![]);
    frontend.declarations_config.output = None;
    let error = builder
        .generate_idl(&pool(&[]), &frontend, &assets(), &config(), &archive())
        .unwrap_err();
    assert_eq!(
        error,
        DfxError {
            cause: ErrorCause::ConfigError("`declarations.output` must not be None".to_string()),
            context: vec!["Failed to generate idl for canister 'frontend'.".to_string()],
        }
    );
}

#[test]
fn pool_hands_out_the_first_canister_of_a_name() {
    let pool = pool(&[("backend", FIRST), ("ledger", SECOND), ("backend", "aaaaa-aa")]);
    let found = pool.get_first_canister_with_name("backend").unwrap();
    assert_eq!(Principal::from_text(FIRST).unwrap(), found.canister_id());
    assert_eq!("backend", found.get_name());
    assert!(pool.get_first_canister_with_name("frontend").is_none());
}

#[test]
fn canister_is_built_by_the_one_builder_that_supports_it() {
    assert_eq!(Ok(1), select_builder("frontend", &vec![false, true, false]));
    assert_eq!(Ok(0), select_builder("frontend", &vec![true]));
    assert_eq!(Ok(2), select_builder("frontend", &vec![false, false, true]));
}

#[test]
fn canister_without_a_builder_is_a_config_error() {
    let error = select_builder("frontend", &vec![false, false]).unwrap_err();
    assert_eq!(
        ErrorCause::ConfigError("Cannot find builder for canister 'frontend'.".to_string()),
        error.cause
    );
    assert!(select_builder("frontend", &vec![]).is_err());
}

#[test]
fn canister_with_several_builders_is_a_config_error() {
    let error = select_builder("frontend", &vec![true, false, true]).unwrap_err();
    assert_eq!(
        ErrorCause::ConfigError("More than one builder supports canister 'frontend'.".to_string()),
        error.cause
    );
    assert!(select_builder("frontend", &vec![true, true]).is_err());
}
