//! The builder for canisters that serve static assets. It decides what is
//! unpacked, deleted, run and copied; the caller carries those steps out.

use crate::builders::output::{BuildConfig, BuildOutput, IdlBuildOutput, WasmBuildOutput};
use crate::canister_info::{AssetsCanisterInfo, CanisterInfo};
use crate::error::{in_context, DfxError, DfxErrorView, ErrorCause, ErrorCauseView};
use crate::location::{FileLocation, FileLocationView};
use crate::models::canister::{id_of_name, Canister, CanisterPool};
use crate::network::network_descriptor::{spec_is_ic, NetworkDescriptor};
use crate::principal::{principal_views, Principal};
use crate::text::{starts_with_char, str_eq, views};
use std::path::Path;
use vstd::prelude::*;
use vstd::string::StringExecFns;

verus! {

/// The name of the compiled module in the bundled archive.
pub const ASSETS_WASM_FILE_NAME: &'static str = "assetstorage.wasm";

/// The name of the interface declaration in the bundled archive.
pub const ASSETS_IDL_FILE_NAME: &'static str = "assetstorage.did";

/// The failure for a `dependencies` field that is no list of strings.
pub open spec fn malformed_dependencies_error() -> DfxErrorView {
    DfxErrorView::new(ErrorCauseView::ConfigError("Field 'dependencies' is of the wrong type."@))
}

/// The failure for a dependency that is not among the canisters of the build.
pub open spec fn unknown_dependency_error(name: Seq<char>) -> DfxErrorView {
    DfxErrorView::new(
        ErrorCauseView::NotFoundError(
            "A canister with the name '"@ + name + "' was not found in the current project."@,
        ),
    )
}

/// The line that names the canister whose dependencies are collected.
pub open spec fn collect_context(canister_name: Seq<char>) -> Seq<char> {
    "Failed to collect dependencies (canister ids) of canister "@ + canister_name + "."@
}

/// The ids of the canisters `names[from..]`, in order; the failure for the
/// first of them that is not in the pool.
pub open spec fn ids_of_names(pool: Seq<Canister>, names: Seq<Seq<char>>, from: int) -> Result<
    Seq<Seq<char>>,
    DfxErrorView,
>
    decreases names.len() - from,
{
    if from < 0 || from >= names.len() {
        Ok(Seq::empty())
    } else {
        match id_of_name(pool, names[from]) {
            None => Err(unknown_dependency_error(names[from])),
            Some(id) => match ids_of_names(pool, names, from + 1) {
                Ok(rest) => Ok(seq![id] + rest),
                Err(e) => Err(e),
            },
        }
    }
}

/// The ids of the canisters that the canister names as its dependencies.
pub open spec fn dependency_ids(pool: Seq<Canister>, info: CanisterInfo) -> Result<
    Seq<Seq<char>>,
    DfxErrorView,
> {
    match info.extras.spec_get("dependencies"@) {
        None => Ok(Seq::empty()),
        Some(value) => match value.spec_as_text_list() {
            None => Err(malformed_dependencies_error()),
            Some(names) => in_context(ids_of_names(pool, names, 0), collect_context(info.name@)),
        },
    }
}

/// The mathematical value of an outcome that holds a list of principals.
pub open spec fn principals_outcome(r: Result<Vec<Principal>, DfxError>) -> Result<
    Seq<Seq<char>>,
    DfxErrorView,
> {
    match r {
        Ok(ids) => Ok(principal_views(ids@)),
        Err(e) => Err(e@),
    }
}

/// Resolving the names from position `from` on gives what resolving the one
/// at `from` and then the rest gives.
proof fn lemma_ids_of_names_step(
    pool: Seq<Canister>,
    names: Seq<Seq<char>>,
    from: int,
    done: Seq<Seq<char>>,
    whole: Result<Seq<Seq<char>>, DfxErrorView>,
)
    requires
        0 <= from < names.len(),
        whole == (match ids_of_names(pool, names, from) {
            Ok(rest) => Ok::<Seq<Seq<char>>, DfxErrorView>(done + rest),
            Err(e) => Err(e),
        }),
    ensures
        match id_of_name(pool, names[from]) {
            None => whole == Err::<Seq<Seq<char>>, DfxErrorView>(
                unknown_dependency_error(names[from]),
            ),
            Some(id) => whole == (match ids_of_names(pool, names, from + 1) {
                Ok(rest) => Ok::<Seq<Seq<char>>, DfxErrorView>(done.push(id) + rest),
                Err(e) => Err(e),
            }),
        },
{
    match id_of_name(pool, names[from]) {
        None => {},
        Some(id) => match ids_of_names(pool, names, from + 1) {
            Ok(rest) => {
                assert(done + (seq![id] + rest) =~= done.push(id) + rest);
            },
            Err(e) => {},
        },
    }
}

/// The ids of the canisters that `info` names as its dependencies, looked up
/// in the pool.
fn collect_dependencies(info: &CanisterInfo, pool: &CanisterPool) -> (r: Result<
    Vec<Principal>,
    DfxError,
>)
    ensures
        principals_outcome(r) == dependency_ids(pool.canisters@, *info),
{
    let deps: Vec<String> = match info.get_extra_value("dependencies") {
        None => Vec::new(),
        Some(value) => match value.as_text_list() {
            Some(list) => list,
            None => {
                return Err(
                    DfxError::new(
                        ErrorCause::ConfigError(
                            String::from_str("Field 'dependencies' is of the wrong type."),
                        ),
                    ),
                );
            },
        },
    };
    let ghost names = views(deps@);
    let ghost whole = ids_of_names(pool.canisters@, names, 0);
    let mut dependencies: Vec<Principal> = Vec::new();
    let mut i: usize = 0;
    proof {
        assert(principal_views(dependencies@) =~= Seq::<Seq<char>>::empty());
        match whole {
            Ok(rest) => {
                assert(Seq::<Seq<char>>::empty() + rest =~= rest);
            },
            Err(e) => {},
        }
        if info.extras.spec_get("dependencies"@) is None {
            assert(names =~= Seq::<Seq<char>>::empty());
        }
    }
    while i < deps.len()
        invariant
            0 <= i <= deps.len(),
            names == views(deps@),
            whole == (match ids_of_names(pool.canisters@, names, i as int) {
                Ok(rest) => Ok::<Seq<Seq<char>>, DfxErrorView>(
                    principal_views(dependencies@) + rest,
                ),
                Err(e) => Err(e),
            }),
            info.extras.spec_get("dependencies"@) is None ==> whole == Ok::<
                Seq<Seq<char>>,
                DfxErrorView,
            >(Seq::empty()),
            dependency_ids(pool.canisters@, *info) == (if info.extras.spec_get("dependencies"@)
                is None {
                Ok::<Seq<Seq<char>>, DfxErrorView>(Seq::empty())
            } else {
                in_context(whole, collect_context(info.name@))
            }),
        decreases deps.len() - i,
    {
        proof {
            lemma_ids_of_names_step(
                pool.canisters@,
                names,
                i as int,
                principal_views(dependencies@),
                whole,
            );
        }
        let ghost before = principal_views(dependencies@);
        match pool.get_first_canister_with_name(deps[i].as_str()) {
            Some(canister) => {
                let id = canister.canister_id();
                dependencies.push(id);
                proof {
                    assert(principal_views(dependencies@) =~= before.push(id@));
                }
            },
            None => {
                let mut message = String::from_str("A canister with the name '");
                message.append(deps[i].as_str());
                message.append("' was not found in the current project.");
                let mut line = String::from_str(
                    "Failed to collect dependencies (canister ids) of canister ",
                );
                line.append(info.name.as_str());
                line.append(".");
                return Err(DfxError::new(ErrorCause::NotFoundError(message)).with_context(line));
            },
        }
        i += 1;
    }
    proof {
        assert(principal_views(dependencies@) + Seq::<Seq<char>>::empty() =~= principal_views(
            dependencies@,
        ));
    }
    Ok(dependencies)
}

/// One entry of the bundled archive.
#[derive(Clone, Debug, PartialEq, Eq)]
pub struct ArchiveEntry {
    pub path: String,
    pub is_directory: bool,
}

/// The positions of the entries `entries[..upto]` that are no directories.
pub open spec fn files_among(entries: Seq<ArchiveEntry>, upto: int) -> Seq<usize>
    decreases upto,
{
    if upto <= 0 || upto > entries.len() {
        Seq::empty()
    } else if entries[upto - 1].is_directory {
        files_among(entries, upto - 1)
    } else {
        files_among(entries, upto - 1).push((upto - 1) as usize)
    }
}

/// The entries of the archive to unpack, by position and in the order of the
/// archive: every entry but the directories.
pub fn entries_to_unpack(entries: &Vec<ArchiveEntry>) -> (r: Vec<usize>)
    ensures
        r@ == files_among(entries@, entries.len() as int),
{
    let mut out: Vec<usize> = Vec::new();
    let mut i: usize = 0;
    while i < entries.len()
        invariant
            0 <= i <= entries.len(),
            out@ == files_among(entries@, i as int),
        decreases entries.len() - i,
    {
        if !entries[i].is_directory {
            out.push(i);
        }
        i += 1;
    }
    out
}

/// Whether a directory entry is hidden: its name begins with a dot.
pub fn is_hidden(file_name: &str) -> (r: bool)
    ensures
        r == (file_name@.len() > 0 && file_name@[0] == '.'),
{
    starts_with_char(file_name, '.')
}

/// Whether the path `base` is a prefix of the path `path`: what
/// `std::path::Path::starts_with` answers. That function compares the two
/// paths component by component, so that `/a/b` is a prefix of `/a/b/c` and
/// not of `/a/bc`; it reads the two texts only and touches no file. How a text
/// is cut into components is that of the platform the library is built for.
pub uninterp spec fn path_has_prefix(path: Seq<char>, base: Seq<char>) -> bool;

/// Calls `std::path::Path::starts_with` on the two texts, taken as paths.
/// Nothing is claimed of the answer beyond its name.
#[verifier::external_body]
fn path_starts_with(path: &str, base: &str) -> (r: bool)
    ensures
        r == path_has_prefix(path@, base@),
{
    Path::new(path).starts_with(Path::new(base))
}

/// The failure for an output directory outside the workspace root.
pub open spec fn outside_workspace_error(path: Seq<char>, canister_name: Seq<char>) -> DfxErrorView {
    DfxErrorView::new(
        ErrorCauseView::PathSafetyError(
            "Directory at '"@ + path + "' is outside the workspace root."@,
        ),
    ).with_context("Failed to delete output directory for canister '"@ + canister_name + "'."@)
}

/// What is to be done with the output directory of the assets, given its
/// canonical path and whether that lies inside the workspace root.
pub open spec fn output_directory_decision(
    canister_name: Seq<char>,
    canonical: Seq<char>,
    inside_workspace: bool,
) -> Result<Seq<char>, DfxErrorView> {
    if inside_workspace {
        Ok(canonical)
    } else {
        Err(outside_workspace_error(canonical, canister_name))
    }
}

/// An output directory that lies outside the workspace root is never handed
/// out for deletion: the decision is a `PathSafetyError`.
pub proof fn law_outside_workspace_is_refused(canister_name: Seq<char>, canonical: Seq<char>)
    ensures
        output_directory_decision(canister_name, canonical, false) is Err,
        output_directory_decision(canister_name, canonical, false)->Err_0.cause is PathSafetyError,
        output_directory_decision(canister_name, canonical, true) == Ok::<Seq<char>, DfxErrorView>(
            canonical,
        ),
{
}

/// Decides on the deletion of the output directory of the assets, whose
/// canonical path is `canonical`: it is deleted if it lies inside the
/// workspace root, and the build fails if it does not.
pub fn check_output_directory(canister_name: &str, canonical: &str, inside_workspace: bool) -> (r:
    Result<String, DfxError>)
    ensures
        crate::config::dfinity::text_outcome(r) == output_directory_decision(
            canister_name@,
            canonical@,
            inside_workspace,
        ),
{
    if inside_workspace {
        Ok(canonical.to_owned())
    } else {
        let mut message = String::from_str("Directory at '");
        message.append(canonical);
        message.append("' is outside the workspace root.");
        let mut line = String::from_str("Failed to delete output directory for canister '");
        line.append(canister_name);
        line.append("'.");
        Err(DfxError::new(ErrorCause::PathSafetyError(message)).with_context(line))
    }
}

/// What is deleted before the assets of a canister are built, given the
/// canonical path of the output directory of the assets, where that directory
/// exists: nothing where it does not exist; the directory itself where the
/// workspace root is a prefix of its canonical path; and where it is not, the
/// build fails.
pub open spec fn directory_to_delete(
    canister_name: Seq<char>,
    workspace_root: Seq<char>,
    canonical: Option<Seq<char>>,
) -> Result<Option<Seq<char>>, DfxErrorView> {
    match canonical {
        None => Ok(None),
        Some(path) => match output_directory_decision(
            canister_name,
            path,
            path_has_prefix(path, workspace_root),
        ) {
            Ok(directory) => Ok(Some(directory)),
            Err(e) => Err(e),
        },
    }
}

/// An output directory is handed out for deletion only where the workspace
/// root is a prefix of its canonical path. Where it is not, the step fails
/// with a `PathSafetyError`, and with nothing else.
pub proof fn law_deletion_stays_in_workspace(
    canister_name: Seq<char>,
    workspace_root: Seq<char>,
    canonical: Seq<char>,
)
    ensures
        path_has_prefix(canonical, workspace_root) ==> directory_to_delete(
            canister_name,
            workspace_root,
            Some(canonical),
        ) == Ok::<Option<Seq<char>>, DfxErrorView>(Some(canonical)),
        !path_has_prefix(canonical, workspace_root) ==> directory_to_delete(
            canister_name,
            workspace_root,
            Some(canonical),
        ) is Err && directory_to_delete(
            canister_name,
            workspace_root,
            Some(canonical),
        )->Err_0.cause is PathSafetyError,
{
}

/// Decides what to delete before the assets are built. `canonical` is the
/// canonical path of the output directory of the assets, where that directory
/// exists. Nothing is deleted where it does not exist. Where it exists it is
/// the directory to delete, unless it lies outside the workspace root: then
/// the build fails.
pub fn delete_output_directory(info: &CanisterInfo, canonical: Option<&str>) -> (r: Result<
    Option<String>,
    DfxError,
>)
    ensures
        crate::config::dfinity::optional_text_outcome(r) == directory_to_delete(
            info.name@,
            info.workspace_root@,
            match canonical {
                Some(path) => Some(path@),
                None => None,
            },
        ),
{
    match canonical {
        None => Ok(None),
        Some(path) => {
            let inside = path_starts_with(path, info.workspace_root.as_str());
            match check_output_directory(info.name.as_str(), path, inside) {
                Ok(directory) => Ok(Some(directory)),
                Err(e) => Err(e),
            }
        },
    }
}

/// What is to be done with one entry of a source directory.
#[derive(Clone, Copy, Debug, PartialEq, Eq, Structural)]
pub enum CopyAction {
    /// The destination exists: it is left as it is.
    Skip,
    /// The entry is a directory: the destination is created.
    CreateDirectory,
    /// The entry is a file: it is copied to the destination.
    CopyFile,
}

/// What is to be done with an entry of a source directory that is not
/// hidden. What the build has already put at the destination is never
/// overwritten.
pub fn copy_action(destination_exists: bool, is_directory: bool) -> (r: CopyAction)
    ensures
        r == (if destination_exists {
            CopyAction::Skip
        } else if is_directory {
            CopyAction::CreateDirectory
        } else {
            CopyAction::CopyFile
        }),
{
    if destination_exists {
        CopyAction::Skip
    } else if is_directory {
        CopyAction::CreateDirectory
    } else {
        CopyAction::CopyFile
    }
}

/// The source directories of the assets to walk, by position and in order,
/// and a warning for each one that does not exist.
#[derive(Clone, Debug, PartialEq, Eq)]
pub struct CopyPlan {
    pub sources: Vec<usize>,
    pub warnings: Vec<String>,
}

/// The warning for a source directory that does not exist.
pub open spec fn missing_source_warning(path: Seq<char>) -> Seq<char> {
    "Source path \""@ + path + "\" does not exist."@
}

/// Whether the source at position `i` exists, as far as `exists` says.
pub open spec fn source_exists(exists: Seq<bool>, i: int) -> bool {
    0 <= i < exists.len() && exists[i]
}

/// The positions of the first `upto` sources that exist.
pub open spec fn sources_to_walk(exists: Seq<bool>, upto: int) -> Seq<usize>
    decreases upto,
{
    if upto <= 0 {
        Seq::empty()
    } else if source_exists(exists, upto - 1) {
        sources_to_walk(exists, upto - 1).push((upto - 1) as usize)
    } else {
        sources_to_walk(exists, upto - 1)
    }
}

/// The warnings for those of the first `upto` sources that do not exist.
pub open spec fn source_warnings(paths: Seq<Seq<char>>, exists: Seq<bool>, upto: int) -> Seq<
    Seq<char>,
>
    decreases upto,
{
    if upto <= 0 || upto > paths.len() {
        Seq::empty()
    } else if source_exists(exists, upto - 1) {
        source_warnings(paths, exists, upto - 1)
    } else {
        source_warnings(paths, exists, upto - 1).push(missing_source_warning(paths[upto - 1]))
    }
}

/// Decides which source directories are walked. `exists` says of each source
/// path of the canister, by position, whether it exists; a source of which it
/// says nothing counts as one that does not. A source that does not exist is
/// passed over with a warning; it is no failure.
pub fn copy_assets(assets_canister_info: &AssetsCanisterInfo, exists: &Vec<bool>) -> (r: CopyPlan)
    ensures
        r.sources@ == sources_to_walk(exists@, assets_canister_info.source_paths.len() as int),
        views(r.warnings@) == source_warnings(
            views(assets_canister_info.source_paths@),
            exists@,
            assets_canister_info.source_paths.len() as int,
        ),
{
    let mut sources: Vec<usize> = Vec::new();
    let mut warnings: Vec<String> = Vec::new();
    let paths = &assets_canister_info.source_paths;
    let mut i: usize = 0;
    proof {
        assert(views(warnings@) =~= Seq::<Seq<char>>::empty());
    }
    while i < paths.len()
        invariant
            0 <= i <= paths.len(),
            sources@ == sources_to_walk(exists@, i as int),
            views(warnings@) == source_warnings(views(paths@), exists@, i as int),
        decreases paths.len() - i,
    {
        if i < exists.len() && exists[i] {
            sources.push(i);
        } else {
            let mut warning = String::from_str("Source path \"");
            warning.append(paths[i].as_str());
            warning.append("\" does not exist.");
            let ghost before = views(warnings@);
            warnings.push(warning);
            proof {
                assert(views(warnings@) =~= before.push(warning@));
            }
        }
        i += 1;
    }
    CopyPlan { sources, warnings }
}

/// A command to run, with the variables to add to its environment.
#[derive(Clone, Debug, PartialEq, Eq)]
pub struct FrontendCommand {
    pub program: String,
    pub args: Vec<String>,
    pub env: Vec<(String, String)>,
    pub current_dir: String,
}

/// The mathematical value of a list of variables.
pub open spec fn env_view(vars: Seq<(String, String)>) -> Seq<(Seq<char>, Seq<char>)> {
    Seq::new(vars.len(), |i: int| (vars[i].0@, vars[i].1@))
}

/// The environment of the frontend build: production mode for the production
/// network, then the variables of the canister.
pub open spec fn frontend_env(network_name: Seq<char>, vars: Seq<(Seq<char>, Seq<char>)>) -> Seq<
    (Seq<char>, Seq<char>),
> {
    if spec_is_ic(network_name, Seq::empty()) {
        seq![("NODE_ENV"@, "production"@)] + vars
    } else {
        vars
    }
}

/// Decides whether and how the frontend of the project is built.
/// `has_package_json` says whether the project root holds a `package.json`:
/// without one there is no frontend and nothing is run. With one, the command
/// is `npm run build` in the project root.
pub fn build_frontend(
    has_package_json: bool,
    project_root: &str,
    network_name: &str,
    vars: Vec<(String, String)>,
) -> (r: Option<FrontendCommand>)
    ensures
        r is Some == has_package_json,
        r matches Some(command) ==> {
            &&& command.program@ == "npm"@
            &&& views(command.args@) == seq!["run"@, "build"@]
            &&& env_view(command.env@) == frontend_env(network_name@, env_view(vars@))
            &&& command.current_dir@ == project_root@
        },
{
    if !has_package_json {
        return None;
    }
    let mut args: Vec<String> = Vec::new();
    args.push(String::from_str("run"));
    args.push(String::from_str("build"));
    proof {
        assert(views(args@) =~= seq!["run"@, "build"@]);
    }
    let mut env: Vec<(String, String)> = Vec::new();
    let no_providers: Vec<String> = Vec::new();
    proof {
        assert(views(no_providers@) =~= Seq::<Seq<char>>::empty());
    }
    let production = NetworkDescriptor::is_ic(network_name, &no_providers);
    if production {
        env.push((String::from_str("NODE_ENV"), String::from_str("production")));
    }
    let ghost head = env_view(env@);
    let mut vars = vars;
    let ghost all = env_view(vars@);
    proof {
        if production {
            assert(head =~= seq![("NODE_ENV"@, "production"@)]);
        } else {
            assert(head =~= Seq::<(Seq<char>, Seq<char>)>::empty());
        }
        assert(head + all.take(0) =~= head);
    }
    let mut i: usize = 0;
    while i < vars.len()
        invariant
            0 <= i <= vars.len(),
            all == env_view(vars@),
            env_view(env@) == head + all.take(i as int),
        decreases vars.len() - i,
    {
        let ghost before = env_view(env@);
        env.push((vars[i].0.clone(), vars[i].1.clone()));
        proof {
            assert(env_view(env@) =~= before.push(all[i as int]));
            assert(all.take(i + 1) =~= all.take(i as int).push(all[i as int]));
            assert(head + all.take(i + 1) =~= (head + all.take(i as int)).push(all[i as int]));
        }
        i += 1;
    }
    proof {
        assert(all.take(vars.len() as int) =~= all);
        if !production {
            assert(head + all =~= all);
        }
    }
    Some(
        FrontendCommand {
            program: String::from_str("npm"),
            args,
            env,
            current_dir: project_root.to_owned(),
        },
    )
}

/// What the end of the frontend build means: a failure where the command did
/// not succeed; else a warning that holds what it wrote to standard error,
/// where it wrote anything.
pub open spec fn frontend_outcome(
    network_name: Seq<char>,
    command: Seq<char>,
    succeeded: bool,
    exit_code: Option<i32>,
    stdout: Seq<char>,
    stderr: Seq<char>,
) -> Result<Option<Seq<char>>, DfxErrorView> {
    if !succeeded {
        Err(
            DfxErrorView::new(
                ErrorCauseView::CommandError(command, exit_code, stdout, stderr),
            ).with_context("Failed to build frontend for network '"@ + network_name + "'."@),
        )
    } else if stderr.len() > 0 {
        Ok(Some(stderr))
    } else {
        Ok(None)
    }
}

/// Judges the end of the frontend build. `command` describes the command that
/// was run, `succeeded` says whether it ended with success, `exit_code` is its
/// exit code where it has one.
pub fn check_frontend_build(
    network_name: &str,
    command: String,
    succeeded: bool,
    exit_code: Option<i32>,
    stdout: String,
    stderr: String,
) -> (r: Result<Option<String>, DfxError>)
    ensures
        crate::config::dfinity::optional_text_outcome(r) == frontend_outcome(
            network_name@,
            command@,
            succeeded,
            exit_code,
            stdout@,
            stderr@,
        ),
{
    if !succeeded {
        let mut line = String::from_str("Failed to build frontend for network '");
        line.append(network_name);
        line.append("'.");
        Err(
            DfxError::new(
                ErrorCause::CommandError(command, exit_code, stdout, stderr),
            ).with_context(line),
        )
    } else if !stderr.as_str().is_empty() {
        Ok(Some(stderr))
    } else {
        Ok(None)
    }
}

/// One step of a build on disk.
#[derive(Clone, Debug, PartialEq, Eq)]
pub enum BuildStep {
    /// Create the directory, unless it is there, and unpack into it the
    /// entries of the archive at these positions.
    Unpack { directory: String, entries: Vec<usize> },
    /// Delete the directory at this path with all it holds, if it is there
    /// and `delete_output_directory` consents.
    ClearDirectory { path: String },
    /// Remove the file, if it is there.
    RemoveFile { file: FileLocation },
    /// Give the file a new name, if it is there.
    RenameFile { from: FileLocation, to: FileLocation },
}

/// The mathematical value of a `BuildStep`.
pub enum BuildStepView {
    Unpack { directory: Seq<char>, entries: Seq<usize> },
    ClearDirectory { path: Seq<char> },
    RemoveFile { file: FileLocationView },
    RenameFile { from: FileLocationView, to: FileLocationView },
}

impl View for BuildStep {
    type V = BuildStepView;

    open spec fn view(&self) -> BuildStepView {
        match self {
            BuildStep::Unpack { directory, entries } => BuildStepView::Unpack {
                directory: directory@,
                entries: entries@,
            },
            BuildStep::ClearDirectory { path } => BuildStepView::ClearDirectory { path: path@ },
            BuildStep::RemoveFile { file } => BuildStepView::RemoveFile { file: file@ },
            BuildStep::RenameFile { from, to } => BuildStepView::RenameFile {
                from: from@,
                to: to@,
            },
        }
    }
}

/// The mathematical value of a list of steps.
pub open spec fn steps_view(steps: Seq<BuildStep>) -> Seq<BuildStepView> {
    Seq::new(steps.len(), |i: int| steps[i]@)
}

/// A build: the steps to carry out, in this order, and what the build hands
/// back when they are done.
#[derive(Clone, Debug, PartialEq, Eq)]
pub struct BuildPlan {
    pub steps: Vec<BuildStep>,
    pub output: BuildOutput,
}

/// The generation of an interface declaration: the steps to carry out, in
/// this order, and where the declaration is when they are done.
#[derive(Clone, Debug, PartialEq, Eq)]
pub struct IdlPlan {
    pub steps: Vec<BuildStep>,
    pub idl: FileLocation,
}

/// The steps of the build of an asset canister: the archive is unpacked into
/// the output root of the canister, then the assets of an earlier build are
/// cleared away.
pub open spec fn build_steps(
    info: CanisterInfo,
    assets: AssetsCanisterInfo,
    archive: Seq<ArchiveEntry>,
) -> Seq<BuildStepView> {
    seq![
        BuildStepView::Unpack {
            directory: info.output_root@,
            entries: files_among(archive, archive.len() as int),
        },
        BuildStepView::ClearDirectory { path: assets.output_assets_path@ },
    ]
}

/// The steps that put the interface declaration of an asset canister into
/// the directory `output`: the archive is unpacked into it, the assets of an
/// earlier build are cleared away, the compiled module, which came with the
/// archive, is removed, and the declaration is named after the canister.
pub open spec fn idl_steps(
    info: CanisterInfo,
    assets: AssetsCanisterInfo,
    archive: Seq<ArchiveEntry>,
    output: Seq<char>,
) -> Seq<BuildStepView> {
    seq![
        BuildStepView::Unpack {
            directory: output,
            entries: files_among(archive, archive.len() as int),
        },
        BuildStepView::ClearDirectory { path: assets.output_assets_path@ },
        BuildStepView::RemoveFile {
            file: FileLocationView { directory: output, file_name: ASSETS_WASM_FILE_NAME@ },
        },
        BuildStepView::RenameFile {
            from: FileLocationView { directory: output, file_name: ASSETS_IDL_FILE_NAME@ },
            to: idl_location(info, output),
        },
    ]
}

/// Where the interface declaration of a canister ends up: in the directory
/// `output`, under the name of the canister.
pub open spec fn idl_location(info: CanisterInfo, output: Seq<char>) -> FileLocationView {
    FileLocationView { directory: output, file_name: info.name@ + ".did"@ }
}

/// The failure for a canister without an output directory for declarations.
pub open spec fn missing_declarations_output_error(canister_name: Seq<char>) -> DfxErrorView {
    DfxErrorView::new(
        ErrorCauseView::ConfigError("`declarations.output` must not be None"@),
    ).with_context("Failed to generate idl for canister '"@ + canister_name + "'."@)
}

/// Builds canisters of the type `assets`.
#[derive(Clone, Copy, Debug, PartialEq, Eq)]
pub struct AssetsBuilder {}

impl AssetsBuilder {
    /// The builder.
    pub fn new() -> (r: Self) {
        AssetsBuilder {  }
    }

    /// Whether this builder is the one for the canister: its type is `assets`.
    pub fn supports(&self, info: &CanisterInfo) -> (r: bool)
        ensures
            r == (info.canister_type@ == "assets"@),
    {
        str_eq(info.canister_type.as_str(), "assets")
    }

    /// The ids of the canisters that the canister depends on, in the order in
    /// which its declaration names them.
    pub fn get_dependencies(&self, pool: &CanisterPool, info: &CanisterInfo) -> (r: Result<
        Vec<Principal>,
        DfxError,
    >)
        ensures
            principals_outcome(r) == in_context(
                in_context(
                    dependency_ids(pool.canisters@, *info),
                    "Failed to create AssetBuilderExtra for canister '"@ + info.name@ + "'."@,
                ),
                "Failed to get dependencies for canister '"@ + info.name@ + "'."@,
            ),
    {
        match collect_dependencies(info, pool) {
            Ok(dependencies) => Ok(dependencies),
            Err(e) => {
                let mut inner = String::from_str("Failed to create AssetBuilderExtra for canister '");
                inner.append(info.name.as_str());
                inner.append("'.");
                let mut outer = String::from_str("Failed to get dependencies for canister '");
                outer.append(info.name.as_str());
                outer.append("'.");
                Err(e.with_context(inner).with_context(outer))
            },
        }
    }

    /// Plans the build of the canister from the bundled archive, whose
    /// entries are `archive`: the steps on disk, and what the build hands
    /// back: the compiled module and the interface declaration in the output
    /// root of the canister, under the id of the canister.
    pub fn build(
        &self,
        _pool: &CanisterPool,
        info: &CanisterInfo,
        assets_canister_info: &AssetsCanisterInfo,
        _config: &BuildConfig,
        archive: &Vec<ArchiveEntry>,
    ) -> (r: BuildPlan)
        requires
            info.canister_id is Some,
        ensures
            steps_view(r.steps@) == build_steps(*info, *assets_canister_info, archive@),
            r.output.canister_id@ == info.canister_id->0@,
            r.output.wasm matches WasmBuildOutput::File(wasm) && wasm@ == (FileLocationView {
                directory: info.output_root@,
                file_name: ASSETS_WASM_FILE_NAME@,
            }),
            r.output.idl matches IdlBuildOutput::File(idl) && idl@ == (FileLocationView {
                directory: info.output_root@,
                file_name: ASSETS_IDL_FILE_NAME@,
            }),
    {
        let canister_id = match &info.canister_id {
            Some(id) => id.clone(),
            None => vstd::pervasive::unreached(),
        };
        let mut steps: Vec<BuildStep> = Vec::new();
        steps.push(
            BuildStep::Unpack {
                directory: info.output_root.clone(),
                entries: entries_to_unpack(archive),
            },
        );
        steps.push(
            BuildStep::ClearDirectory { path: assets_canister_info.output_assets_path.clone() },
        );
        proof {
            assert(steps_view(steps@) =~= build_steps(*info, *assets_canister_info, archive@));
        }
        BuildPlan {
            steps,
            output: BuildOutput {
                canister_id,
                wasm: WasmBuildOutput::File(
                    FileLocation {
                        directory: info.output_root.clone(),
                        file_name: String::from_str(ASSETS_WASM_FILE_NAME),
                    },
                ),
                idl: IdlBuildOutput::File(
                    FileLocation {
                        directory: info.output_root.clone(),
                        file_name: String::from_str(ASSETS_IDL_FILE_NAME),
                    },
                ),
            },
        }
    }

    /// The ids of the canisters that the canister depends on, which the
    /// steps after the build start from.
    pub fn postbuild(&self, pool: &CanisterPool, info: &CanisterInfo, _config: &BuildConfig) -> (r:
        Result<Vec<Principal>, DfxError>)
        ensures
            principals_outcome(r) == dependency_ids(pool.canisters@, *info),
    {
        collect_dependencies(info, pool)
    }

    /// Plans the generation of the interface declaration of the canister from
    /// the bundled archive, whose entries are `archive`: the steps on disk,
    /// and where the declaration ends up: in the output directory for
    /// declarations, under the name of the canister. Fails where the canister
    /// has no such directory.
    pub fn generate_idl(
        &self,
        _pool: &CanisterPool,
        info: &CanisterInfo,
        assets_canister_info: &AssetsCanisterInfo,
        _config: &BuildConfig,
        archive: &Vec<ArchiveEntry>,
    ) -> (r: Result<IdlPlan, DfxError>)
        ensures
            match r {
                Ok(plan) => {
                    &&& info.declarations_config.output matches Some(output)
                    &&& steps_view(plan.steps@) == idl_steps(
                        *info,
                        *assets_canister_info,
                        archive@,
                        output@,
                    )
                    &&& plan.idl@ == idl_location(*info, output@)
                },
                Err(e) => info.declarations_config.output is None && e@
                    == missing_declarations_output_error(info.name@),
            },
    {
        let output = match &info.declarations_config.output {
            Some(output) => output,
            None => {
                let mut line = String::from_str("Failed to generate idl for canister '");
                line.append(info.name.as_str());
                line.append("'.");
                return Err(
                    DfxError::new(
                        ErrorCause::ConfigError(
                            String::from_str("`declarations.output` must not be None"),
                        ),
                    ).with_context(line),
                );
            },
        };
        let mut renamed = info.name.clone();
        renamed.append(".did");
        let mut steps: Vec<BuildStep> = Vec::new();
        steps.push(
            BuildStep::Unpack { directory: output.clone(), entries: entries_to_unpack(archive) },
        );
        steps.push(
            BuildStep::ClearDirectory { path: assets_canister_info.output_assets_path.clone() },
        );
        steps.push(
            BuildStep::RemoveFile {
                file: FileLocation {
                    directory: output.clone(),
                    file_name: String::from_str(ASSETS_WASM_FILE_NAME),
                },
            },
        );
        steps.push(
            BuildStep::RenameFile {
                from: FileLocation {
                    directory: output.clone(),
                    file_name: String::from_str(ASSETS_IDL_FILE_NAME),
                },
                to: FileLocation { directory: output.clone(), file_name: renamed.clone() },
            },
        );
        proof {
            assert(steps_view(steps@) =~= idl_steps(
                *info,
                *assets_canister_info,
                archive@,
                output@,
            ));
        }
        Ok(IdlPlan { steps, idl: FileLocation { directory: output.clone(), file_name: renamed } })
    }
}

} // verus!
