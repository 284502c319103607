//! The project manifest: canister declarations, network declarations and
//! build defaults, and the questions the rest of the library asks of them.

use crate::error::{in_context, DfxError, DfxErrorView, ErrorCause, ErrorCauseView};
use crate::json::JsonValue;
use crate::location::{FileLocation, FileLocationView};
use crate::name_map::NameMap;
use crate::principal::Principal;
use crate::text::{clone_strings, str_eq, views};
use vstd::prelude::*;
use vstd::string::StringExecFns;

verus! {

/// The file name of the project manifest.
pub const CONFIG_FILE_NAME: &'static str = "dfx.json";

/// The address a local network binds to when the manifest names none.
pub const DEFAULT_LOCAL_BIND: &'static str = "127.0.0.1:8000";

/// The gateway of the production network.
pub const DEFAULT_IC_GATEWAY: &'static str = "https://ic0.app";

/// The gateway of the production network, written with a trailing slash.
pub const DEFAULT_IC_GATEWAY_TRAILING_SLASH: &'static str = "https://ic0.app/";

/// The identities that a canister has on networks where it was deployed by
/// someone else.
#[derive(Clone, Debug, PartialEq, Eq)]
pub struct ConfigCanistersCanisterRemote {
    pub candid: Option<String>,
    /// Network name to canister id.
    pub id: NameMap<Principal>,
}

/// Where and for which languages interface declarations are generated.
#[derive(Clone, Debug, PartialEq, Eq)]
pub struct CanisterDeclarationsConfig {
    /// Directory to place the declarations of the canister in.
    pub output: Option<String>,
    /// The languages to generate declarations for.
    pub bindings: Option<Vec<String>>,
    /// A text that replaces the canister-id environment variable in generated
    /// bindings.
    pub env_override: Option<String>,
}

impl Default for CanisterDeclarationsConfig {
    fn default() -> (r: Self)
        ensures
            r.output is None,
            r.bindings is None,
            r.env_override is None,
    {
        CanisterDeclarationsConfig { output: None, bindings: None, env_override: None }
    }
}

/// A canister as the manifest declares it. Only the type, the declarations
/// settings and the remote identities have a fixed shape; every other field
/// is kept as it was written, for the consumer that understands it.
#[derive(Debug, PartialEq, Eq)]
pub struct ConfigCanistersCanister {
    pub canister_type: Option<String>,
    pub declarations: CanisterDeclarationsConfig,
    pub remote: Option<ConfigCanistersCanisterRemote>,
    pub extras: NameMap<JsonValue>,
}

/// The defaults for the bitcoin integration.
#[derive(Clone, Debug, PartialEq, Eq)]
pub struct ConfigDefaultsBitcoin {
    pub enabled: bool,
    /// Addresses of nodes to connect to, each written as `host:port`.
    pub nodes: Option<Vec<String>>,
}

/// The defaults for outgoing HTTP calls of canisters.
#[derive(Clone, Copy, Debug, PartialEq, Eq)]
pub struct ConfigDefaultsCanisterHttp {
    pub enabled: bool,
}

/// The value of a switch that the manifest leaves out.
pub fn default_as_false() -> (r: bool)
    ensures
        !r,
{
    false
}

/// The defaults for the bootstrap server.
#[derive(Clone, Debug, PartialEq, Eq)]
pub struct ConfigDefaultsBootstrap {
    /// The address to listen on, in its textual form.
    pub ip: Option<String>,
    pub port: Option<u16>,
    pub timeout: Option<u64>,
}

/// The defaults for builds.
#[derive(Clone, Debug, PartialEq, Eq)]
pub struct ConfigDefaultsBuild {
    pub packtool: Option<String>,
    pub args: Option<String>,
}

/// The defaults for the local replica.
#[derive(Clone, Copy, Debug, PartialEq, Eq)]
pub struct ConfigDefaultsReplica {
    pub port: Option<u16>,
    pub subnet_type: Option<ReplicaSubnetType>,
}

/// How long the canister ids of a network are expected to live.
#[derive(Clone, Copy, Debug, PartialEq, Eq, Structural)]
pub enum NetworkType {
    /// Ids are kept beside the other temporary state of the network.
    Ephemeral,
    /// Ids are kept beside the manifest.
    Persistent,
}

impl Default for NetworkType {
    fn default() -> (r: Self)
        ensures
            r == NetworkType::Ephemeral,
    {
        NetworkType::Ephemeral
    }
}

impl NetworkType {
    /// The durability of a network declared by a bind address.
    pub fn ephemeral() -> (r: Self)
        ensures
            r == NetworkType::Ephemeral,
    {
        NetworkType::Ephemeral
    }

    /// The durability of a network declared by a list of providers.
    pub fn persistent() -> (r: Self)
        ensures
            r == NetworkType::Persistent,
    {
        NetworkType::Persistent
    }
}

/// The kind of subnet that the local replica stands for.
#[derive(Clone, Copy, Debug, PartialEq, Eq, Structural)]
pub enum ReplicaSubnetType {
    System,
    Application,
    VerifiedApplication,
}

impl Default for ReplicaSubnetType {
    fn default() -> (r: Self)
        ensures
            r == ReplicaSubnetType::Application,
    {
        ReplicaSubnetType::Application
    }
}

impl ReplicaSubnetType {
    /// The name of the subnet type as the replica starter expects it.
    pub open spec fn spec_ic_starter_string(self) -> Seq<char> {
        match self {
            ReplicaSubnetType::System => "system"@,
            ReplicaSubnetType::Application => "application"@,
            ReplicaSubnetType::VerifiedApplication => "verified_application"@,
        }
    }

    /// Converts the value to the string that the replica starter expects for
    /// its subnet type argument.
    pub fn as_ic_starter_string(&self) -> (r: String)
        ensures
            r@ == self.spec_ic_starter_string(),
    {
        match self {
            ReplicaSubnetType::System => String::from_str("system"),
            ReplicaSubnetType::Application => String::from_str("application"),
            ReplicaSubnetType::VerifiedApplication => String::from_str("verified_application"),
        }
    }
}

/// A network reached through a list of provider endpoints.
#[derive(Debug, PartialEq, Eq)]
pub struct ConfigNetworkProvider {
    pub providers: Vec<String>,
    pub network_type: NetworkType,
}

/// A network that runs on this machine and binds to an address.
#[derive(Debug, PartialEq, Eq)]
pub struct ConfigLocalProvider {
    pub bind: String,
    pub network_type: NetworkType,
}

/// A network as the manifest declares it.
#[derive(Debug, PartialEq, Eq)]
pub enum ConfigNetwork {
    ConfigNetworkProvider(ConfigNetworkProvider),
    ConfigLocalProvider(ConfigLocalProvider),
}

/// The mathematical value of a network declaration.
pub enum ConfigNetworkView {
    ConfigNetworkProvider { providers: Seq<Seq<char>>, network_type: NetworkType },
    ConfigLocalProvider { bind: Seq<char>, network_type: NetworkType },
}

impl ConfigNetworkView {
    /// The durability of the network.
    pub open spec fn network_type(self) -> NetworkType {
        match self {
            ConfigNetworkView::ConfigNetworkProvider { network_type, .. } => network_type,
            ConfigNetworkView::ConfigLocalProvider { network_type, .. } => network_type,
        }
    }
}

impl View for ConfigNetworkProvider {
    type V = ConfigNetworkView;

    open spec fn view(&self) -> ConfigNetworkView {
        ConfigNetworkView::ConfigNetworkProvider {
            providers: views(self.providers@),
            network_type: self.network_type,
        }
    }
}

impl View for ConfigLocalProvider {
    type V = ConfigNetworkView;

    open spec fn view(&self) -> ConfigNetworkView {
        ConfigNetworkView::ConfigLocalProvider { bind: self.bind@, network_type: self.network_type }
    }
}

impl View for ConfigNetwork {
    type V = ConfigNetworkView;

    open spec fn view(&self) -> ConfigNetworkView {
        match self {
            ConfigNetwork::ConfigNetworkProvider(p) => p@,
            ConfigNetwork::ConfigLocalProvider(l) => l@,
        }
    }
}

/// The declaration of a network by its providers, with the durability that
/// the declaration names, if it names one: such a network is persistent
/// unless the declaration says otherwise.
pub open spec fn declared_provider(
    providers: Seq<Seq<char>>,
    network_type: Option<NetworkType>,
) -> ConfigNetworkView {
    ConfigNetworkView::ConfigNetworkProvider {
        providers,
        network_type: match network_type {
            Some(t) => t,
            None => NetworkType::Persistent,
        },
    }
}

/// The declaration of a network by its bind address, with the durability that
/// the declaration names, if it names one: such a network is ephemeral unless
/// the declaration says otherwise.
pub open spec fn declared_local(
    bind: Seq<char>,
    network_type: Option<NetworkType>,
) -> ConfigNetworkView {
    ConfigNetworkView::ConfigLocalProvider {
        bind,
        network_type: match network_type {
            Some(t) => t,
            None => NetworkType::Ephemeral,
        },
    }
}

impl ConfigNetworkProvider {
    /// A network reached through `providers`. It is persistent unless
    /// `network_type` says otherwise.
    pub fn new(providers: Vec<String>, network_type: Option<NetworkType>) -> (r: Self)
        ensures
            r@ == declared_provider(views(providers@), network_type),
    {
        let network_type = match network_type {
            Some(t) => t,
            None => NetworkType::persistent(),
        };
        ConfigNetworkProvider { providers, network_type }
    }
}

impl ConfigLocalProvider {
    /// A local network bound to `bind`. It is ephemeral unless `network_type`
    /// says otherwise.
    pub fn new(bind: String, network_type: Option<NetworkType>) -> (r: Self)
        ensures
            r@ == declared_local(bind@, network_type),
    {
        let network_type = match network_type {
            Some(t) => t,
            None => NetworkType::ephemeral(),
        };
        ConfigLocalProvider { bind, network_type }
    }
}

impl Clone for ConfigNetworkProvider {
    fn clone(&self) -> (r: Self)
        ensures
            r@ == self@,
    {
        ConfigNetworkProvider {
            providers: clone_strings(&self.providers),
            network_type: self.network_type,
        }
    }
}

impl Clone for ConfigLocalProvider {
    fn clone(&self) -> (r: Self)
        ensures
            r@ == self@,
    {
        ConfigLocalProvider { bind: self.bind.clone(), network_type: self.network_type }
    }
}

impl Clone for ConfigNetwork {
    fn clone(&self) -> (r: Self)
        ensures
            r@ == self@,
    {
        match self {
            ConfigNetwork::ConfigNetworkProvider(p) => ConfigNetwork::ConfigNetworkProvider(
                p.clone(),
            ),
            ConfigNetwork::ConfigLocalProvider(l) => ConfigNetwork::ConfigLocalProvider(l.clone()),
        }
    }
}

/// What a build is meant for.
#[derive(Clone, Copy, Debug, PartialEq, Eq, Structural)]
pub enum Profile {
    /// For development only.
    Debug,
    /// For production.
    Release,
}

/// The defaults section of the manifest.
#[derive(Clone, Debug, PartialEq, Eq)]
pub struct ConfigDefaults {
    pub bitcoin: Option<ConfigDefaultsBitcoin>,
    pub bootstrap: Option<ConfigDefaultsBootstrap>,
    pub build: Option<ConfigDefaultsBuild>,
    pub canister_http: Option<ConfigDefaultsCanisterHttp>,
    pub replica: Option<ConfigDefaultsReplica>,
}

/// The manifest of a project.
#[derive(Debug, PartialEq, Eq)]
pub struct ConfigInterface {
    pub profile: Option<Profile>,
    pub version: Option<u32>,
    pub dfx: Option<String>,
    pub canisters: Option<NameMap<ConfigCanistersCanister>>,
    pub defaults: Option<ConfigDefaults>,
    pub networks: Option<NameMap<ConfigNetwork>>,
}

/// The failure for a host name that resolves to no address.
pub open spec fn no_address_error() -> DfxErrorView {
    DfxErrorView::new(ErrorCauseView::NotFoundError("Empty iterator"@))
}

/// Picks the socket address for a text of the form `host:port`, given what
/// the resolution of the text came to: the addresses it yielded, or the
/// message of its failure. The first address is the one to use; that there is
/// none is a failure of its own.
pub fn to_socket_addr<A>(resolved: Result<Vec<A>, String>) -> (r: Result<A, DfxError>)
    ensures
        match resolved {
            Ok(addresses) => if addresses.len() > 0 {
                r == Ok::<A, DfxError>(addresses[0])
            } else {
                r matches Err(e) && e@ == no_address_error()
            },
            Err(message) => r matches Err(e) && e@ == DfxErrorView::new(
                ErrorCauseView::IoError(message@),
            ),
        },
{
    match resolved {
        Ok(addresses) => {
            let mut addresses = addresses;
            if addresses.len() > 0 {
                Ok(addresses.swap_remove(0))
            } else {
                Err(DfxError::new(ErrorCause::NotFoundError(String::from_str("Empty iterator"))))
            }
        },
        Err(message) => Err(DfxError::new(ErrorCause::IoError(message))),
    }
}

/// The position of the first `true`, from `from` on.
pub open spec fn first_true(flags: Seq<bool>, from: int) -> Option<int>
    decreases flags.len() - from,
{
    if from < 0 || from >= flags.len() {
        None
    } else if flags[from] {
        Some(from)
    } else {
        first_true(flags, from + 1)
    }
}

/// Picks the directory whose manifest belongs to a working directory.
/// `has_manifest` says, for the working directory and then for each of its
/// ancestors up to the root, whether it holds a manifest; the nearest one
/// that does is picked, by its position.
pub fn resolve_config_path(has_manifest: &Vec<bool>) -> (r: Option<usize>)
    ensures
        match r {
            Some(i) => first_true(has_manifest@, 0) == Some(i as int),
            None => first_true(has_manifest@, 0) is None,
        },
{
    let mut i: usize = 0;
    while i < has_manifest.len()
        invariant
            0 <= i <= has_manifest.len(),
            first_true(has_manifest@, 0) == first_true(has_manifest@, i as int),
        decreases has_manifest.len() - i,
    {
        if has_manifest[i] {
            return Some(i);
        }
        i += 1;
    }
    None
}

/// The text of an optional setting that counts only when it is not empty.
pub open spec fn non_empty_setting(setting: Option<String>) -> Option<Seq<char>> {
    match setting {
        Some(v) => if v@.len() > 0 {
            Some(v@)
        } else {
            None
        },
        None => None,
    }
}

/// The text of an optional string.
pub open spec fn optional_text(value: Option<String>) -> Option<Seq<char>> {
    match value {
        Some(v) => Some(v@),
        None => None,
    }
}

impl ConfigDefaultsBuild {
    /// The package tool to use, unless it is left out or empty.
    pub fn get_packtool(&self) -> (r: Option<String>)
        ensures
            optional_text(r) == non_empty_setting(self.packtool),
    {
        match &self.packtool {
            Some(v) => if !v.as_str().is_empty() {
                Some(v.clone())
            } else {
                None
            },
            None => None,
        }
    }

    /// The extra compiler arguments, unless they are left out or empty.
    pub fn get_args(&self) -> (r: Option<String>)
        ensures
            optional_text(r) == non_empty_setting(self.args),
    {
        match &self.args {
            Some(v) => if !v.as_str().is_empty() {
                Some(v.clone())
            } else {
                None
            },
            None => None,
        }
    }
}

impl ConfigDefaults {
    /// The bitcoin defaults; where the manifest has none: disabled, no nodes.
    pub fn get_bitcoin(&self) -> (r: &ConfigDefaultsBitcoin)
        ensures
            self.bitcoin matches Some(x) ==> *r == x,
            self.bitcoin is None ==> !r.enabled && r.nodes is None,
    {
        match &self.bitcoin {
            Some(x) => x,
            None => &ConfigDefaultsBitcoin { enabled: false, nodes: None },
        }
    }

    /// The bootstrap defaults; where the manifest has none, every setting is
    /// left out.
    pub fn get_bootstrap(&self) -> (r: &ConfigDefaultsBootstrap)
        ensures
            self.bootstrap matches Some(x) ==> *r == x,
            self.bootstrap is None ==> r.ip is None && r.port is None && r.timeout is None,
    {
        match &self.bootstrap {
            Some(x) => x,
            None => &ConfigDefaultsBootstrap { ip: None, port: None, timeout: None },
        }
    }

    /// The build defaults; where the manifest has none, every setting is left
    /// out.
    pub fn get_build(&self) -> (r: &ConfigDefaultsBuild)
        ensures
            self.build matches Some(x) ==> *r == x,
            self.build is None ==> r.packtool is None && r.args is None,
    {
        match &self.build {
            Some(x) => x,
            None => &ConfigDefaultsBuild { packtool: None, args: None },
        }
    }

    /// The defaults for outgoing HTTP calls of canisters; where the manifest
    /// has none: disabled.
    pub fn get_canister_http(&self) -> (r: &ConfigDefaultsCanisterHttp)
        ensures
            self.canister_http matches Some(x) ==> *r == x,
            self.canister_http is None ==> !r.enabled,
    {
        match &self.canister_http {
            Some(x) => x,
            None => &ConfigDefaultsCanisterHttp { enabled: false },
        }
    }

    /// The replica defaults; where the manifest has none, every setting is
    /// left out.
    pub fn get_replica(&self) -> (r: &ConfigDefaultsReplica)
        ensures
            self.replica matches Some(x) ==> *r == x,
            self.replica is None ==> r.port is None && r.subnet_type is None,
    {
        match &self.replica {
            Some(x) => x,
            None => &ConfigDefaultsReplica { port: None, subnet_type: None },
        }
    }
}

/// The descriptor that the name `ic` always resolves to.
pub open spec fn ic_network() -> ConfigNetworkView {
    ConfigNetworkView::ConfigNetworkProvider {
        providers: seq![DEFAULT_IC_GATEWAY@],
        network_type: NetworkType::Persistent,
    }
}

/// The descriptor that the name `local` resolves to when the manifest does
/// not declare it.
pub open spec fn default_local_network() -> ConfigNetworkView {
    ConfigNetworkView::ConfigLocalProvider {
        bind: DEFAULT_LOCAL_BIND@,
        network_type: NetworkType::Ephemeral,
    }
}

/// What a network name resolves to, given the declared networks: `ic` is
/// fixed; a declared network is returned as declared; `local` has a default;
/// any other name is unknown.
pub open spec fn resolve_network(
    networks: Option<NameMap<ConfigNetwork>>,
    name: Seq<char>,
) -> Option<ConfigNetworkView> {
    if name == "ic"@ {
        Some(ic_network())
    } else if networks is Some && networks->0@.contains_key(name) {
        Some(networks->0@[name]@)
    } else if name == "local"@ {
        Some(default_local_network())
    } else {
        None
    }
}

/// The name `ic` resolves to the production network, which is persistent,
/// whatever the manifest declares under that name.
pub proof fn law_ic_is_fixed(networks: Option<NameMap<ConfigNetwork>>)
    ensures
        resolve_network(networks, "ic"@) == Some(ic_network()),
        ic_network().network_type() == NetworkType::Persistent,
        ic_network() == declared_provider(seq!["https://ic0.app"@], None),
{
}

/// Where the manifest does not declare it, the name `local` resolves to an
/// ephemeral network bound to `127.0.0.1:8000`.
pub proof fn law_local_has_default(networks: Option<NameMap<ConfigNetwork>>)
    requires
        networks is None || !networks->0@.contains_key("local"@),
    ensures
        resolve_network(networks, "local"@) == Some(declared_local("127.0.0.1:8000"@, None)),
        resolve_network(networks, "local"@)->0.network_type() == NetworkType::Ephemeral,
{
    reveal_strlit("local");
    reveal_strlit("ic");
    assert("local"@.len() != "ic"@.len());
}

/// A network that the manifest declares, under any name but `ic`, resolves to
/// its declaration.
pub proof fn law_declared_network_resolves(networks: NameMap<ConfigNetwork>, name: Seq<char>)
    requires
        name != "ic"@,
        networks@.contains_key(name),
    ensures
        resolve_network(Some(networks), name) == Some(networks@[name]@),
{
}

/// A network declared by a bind address is ephemeral and one declared by
/// providers is persistent, unless the declaration names the durability: then
/// it is the one named.
pub proof fn law_durability_defaults(
    bind: Seq<char>,
    providers: Seq<Seq<char>>,
    named: NetworkType,
)
    ensures
        declared_local(bind, None).network_type() == NetworkType::Ephemeral,
        declared_local(bind, Some(named)).network_type() == named,
        declared_provider(providers, None).network_type() == NetworkType::Persistent,
        declared_provider(providers, Some(named)).network_type() == named,
{
}

/// An unknown name resolves to nothing: a name that is neither `ic` nor
/// `local` and that the manifest does not declare.
pub proof fn law_unknown_network(networks: Option<NameMap<ConfigNetwork>>, name: Seq<char>)
    requires
        name != "ic"@,
        name != "local"@,
        networks is None || !networks->0@.contains_key(name),
    ensures
        resolve_network(networks, name) is None,
{
}

/// The view of an optional network declaration.
pub open spec fn optional_network(value: Option<ConfigNetwork>) -> Option<ConfigNetworkView> {
    match value {
        Some(n) => Some(n@),
        None => None,
    }
}

impl ConfigInterface {
    /// The defaults section; where the manifest has none, every part of it is
    /// left out.
    pub fn get_defaults(&self) -> (r: &ConfigDefaults)
        ensures
            self.defaults matches Some(x) ==> *r == x,
            self.defaults is None ==> r.bitcoin is None && r.bootstrap is None && r.build is None
                && r.canister_http is None && r.replica is None,
    {
        match &self.defaults {
            Some(v) => v,
            None => &ConfigDefaults {
                bitcoin: None,
                bootstrap: None,
                build: None,
                canister_http: None,
                replica: None,
            },
        }
    }

    /// Resolves a network name to its descriptor.
    pub fn get_network(&self, name: &str) -> (r: Option<ConfigNetwork>)
        ensures
            optional_network(r) == resolve_network(self.networks, name@),
    {
        if str_eq(name, "ic") {
            let mut providers: Vec<String> = Vec::new();
            providers.push(String::from_str(DEFAULT_IC_GATEWAY));
            proof {
                assert(views(providers@) =~= seq![DEFAULT_IC_GATEWAY@]);
            }
            return Some(
                ConfigNetwork::ConfigNetworkProvider(
                    ConfigNetworkProvider { providers, network_type: NetworkType::Persistent },
                ),
            );
        }
        let declared = match &self.networks {
            Some(networks) => networks.get(name),
            None => None,
        };
        match declared {
            Some(network) => Some(network.clone()),
            None => {
                if str_eq(name, "local") {
                    Some(
                        ConfigNetwork::ConfigLocalProvider(
                            ConfigLocalProvider {
                                bind: String::from_str(DEFAULT_LOCAL_BIND),
                                network_type: NetworkType::Ephemeral,
                            },
                        ),
                    )
                } else {
                    None
                }
            },
        }
    }

    /// The version of the manifest format; 1 where the manifest names none.
    pub fn get_version(&self) -> (r: u32)
        ensures
            r == (match self.version {
                Some(v) => v,
                None => 1u32,
            }),
    {
        match self.version {
            Some(v) => v,
            None => 1,
        }
    }

    /// The version of the tool that the manifest asks for.
    pub fn get_dfx(&self) -> (r: Option<String>)
        ensures
            optional_text(r) == optional_text(self.dfx),
    {
        match &self.dfx {
            Some(v) => Some(v.clone()),
            None => None,
        }
    }

    /// The address that the local network binds to, as the manifest writes
    /// it: the bind address of the network `local`. Fails where `local` is
    /// declared as a network reached through providers. `default` is the
    /// answer where `local` does not resolve at all.
    pub fn get_local_bind_address(&self, default: &str) -> (r: Result<String, DfxError>)
        ensures
            text_outcome(r) == local_bind_address(self.networks, default@),
    {
        match self.get_network("local") {
            Some(ConfigNetwork::ConfigLocalProvider(local)) => Ok(local.bind),
            Some(ConfigNetwork::ConfigNetworkProvider(_)) => Err(
                DfxError::new(
                    ErrorCause::ConfigError(
                        String::from_str(
                            "Expected there to be a local network with a bind address.",
                        ),
                    ),
                ),
            ),
            None => Ok(default.to_owned()),
        }
    }

    /// The id that the manifest fixes for `canister` on `network`, if any.
    pub fn get_remote_canister_id(&self, canister: &str, network: &str) -> (r: Result<
        Option<Principal>,
        DfxError,
    >)
        ensures
            optional_principal_outcome(r) == in_context(
                remote_canister_id(self.canisters, canister@, network@),
                remote_id_context(canister@, network@),
            ),
    {
        let found = match &self.canisters {
            None => Err(
                DfxError::new(
                    ErrorCause::ConfigError(
                        String::from_str("No canisters in the configuration file."),
                    ),
                ),
            ),
            Some(canisters) => match canisters.get(canister) {
                None => {
                    let mut message = String::from_str("Canister ");
                    message.append(canister);
                    message.append(" not found in dfx.json");
                    Err(DfxError::new(ErrorCause::NotFoundError(message)))
                },
                Some(declaration) => match &declaration.remote {
                    None => Ok(None),
                    Some(remote) => match remote.id.get(network) {
                        None => Ok(None),
                        Some(id) => Ok(Some(id.clone())),
                    },
                },
            },
        };
        match found {
            Ok(id) => Ok(id),
            Err(e) => {
                let mut line = String::from_str("Failed to figure out if canister '");
                line.append(canister);
                line.append("' has a remote id on network '");
                line.append(network);
                line.append("'.");
                Err(e.with_context(line))
            },
        }
    }

    /// Whether the manifest fixes an id for `canister` on `network`.
    pub fn is_remote_canister(&self, canister: &str, network: &str) -> (r: Result<bool, DfxError>)
        ensures
            match r {
                Ok(remote) => in_context(
                    remote_canister_id(self.canisters, canister@, network@),
                    remote_id_context(canister@, network@),
                ) matches Ok(id) && remote == (id is Some),
                Err(e) => in_context(
                    in_context(
                        remote_canister_id(self.canisters, canister@, network@),
                        remote_id_context(canister@, network@),
                    ),
                    is_remote_context(canister@, network@),
                ) == Err::<Option<Seq<char>>, DfxErrorView>(e@),
            },
    {
        match self.get_remote_canister_id(canister, network) {
            Ok(id) => Ok(id.is_some()),
            Err(e) => {
                let mut line = String::from_str("Failed while determining if canister '");
                line.append(canister);
                line.append("' is remote on network '");
                line.append(network);
                line.append("'.");
                Err(e.with_context(line))
            },
        }
    }

    /// The compute allocation that the manifest asks for the canister.
    pub fn get_compute_allocation(&self, canister_name: &str) -> (r: Result<
        Option<String>,
        DfxError,
    >)
        ensures
            optional_text_outcome(r) == in_context(
                canister_initialization_value(
                    self.canisters,
                    canister_name@,
                    "compute_allocation"@,
                ),
                "Failed to get compute allocation for '"@ + canister_name@ + "'."@,
            ),
    {
        match self.get_initialization_value(canister_name, "compute_allocation") {
            Ok(value) => Ok(value),
            Err(e) => {
                let mut line = String::from_str("Failed to get compute allocation for '");
                line.append(canister_name);
                line.append("'.");
                Err(e.with_context(line))
            },
        }
    }

    /// The memory allocation that the manifest asks for the canister.
    pub fn get_memory_allocation(&self, canister_name: &str) -> (r: Result<
        Option<String>,
        DfxError,
    >)
        ensures
            optional_text_outcome(r) == in_context(
                canister_initialization_value(
                    self.canisters,
                    canister_name@,
                    "memory_allocation"@,
                ),
                "Failed to get memory allocation for '"@ + canister_name@ + "'."@,
            ),
    {
        match self.get_initialization_value(canister_name, "memory_allocation") {
            Ok(value) => Ok(value),
            Err(e) => {
                let mut line = String::from_str("Failed to get memory allocation for '");
                line.append(canister_name);
                line.append("'.");
                Err(e.with_context(line))
            },
        }
    }

    /// The freezing threshold that the manifest asks for the canister.
    pub fn get_freezing_threshold(&self, canister_name: &str) -> (r: Result<
        Option<String>,
        DfxError,
    >)
        ensures
            optional_text_outcome(r) == in_context(
                canister_initialization_value(
                    self.canisters,
                    canister_name@,
                    "freezing_threshold"@,
                ),
                "Failed to get freezing threshold for '"@ + canister_name@ + "'."@,
            ),
    {
        match self.get_initialization_value(canister_name, "freezing_threshold") {
            Ok(value) => Ok(value),
            Err(e) => {
                let mut line = String::from_str("Failed to get freezing threshold for '");
                line.append(canister_name);
                line.append("'.");
                Err(e.with_context(line))
            },
        }
    }

    /// The member `field` of the canister's `initialization_values`.
    fn get_initialization_value(&self, canister_name: &str, field: &str) -> (r: Result<
        Option<String>,
        DfxError,
    >)
        ensures
            optional_text_outcome(r) == canister_initialization_value(
                self.canisters,
                canister_name@,
                field@,
            ),
    {
        let canister_map = match &self.canisters {
            Some(map) => map,
            None => {
                return Err(
                    DfxError::new(
                        ErrorCause::ConfigError(
                            String::from_str("No canisters in the configuration file."),
                        ),
                    ),
                );
            },
        };
        let canister_config = match canister_map.get(canister_name) {
            Some(config) => config,
            None => {
                let mut message = String::from_str("Cannot find canister '");
                message.append(canister_name);
                message.append("'.");
                return Err(DfxError::new(ErrorCause::NotFoundError(message)));
            },
        };
        let values = match canister_config.extras.get("initialization_values") {
            Some(values) => values,
            None => {
                return Ok(None);
            },
        };
        match values.get(field) {
            None => Ok(None),
            Some(value) => match value.as_text() {
                Some(text) => Ok(Some(text)),
                None => {
                    let mut message = String::from_str("Field ");
                    message.append(field);
                    message.append(" is of the wrong type");
                    Err(DfxError::new(ErrorCause::ConfigError(message)))
                },
            },
        }
    }
}

/// The mathematical value of an outcome that holds a text.
pub open spec fn text_outcome(r: Result<String, DfxError>) -> Result<Seq<char>, DfxErrorView> {
    match r {
        Ok(text) => Ok(text@),
        Err(e) => Err(e@),
    }
}

/// The mathematical value of an outcome that may hold a text.
pub open spec fn optional_text_outcome(r: Result<Option<String>, DfxError>) -> Result<
    Option<Seq<char>>,
    DfxErrorView,
> {
    match r {
        Ok(text) => Ok(optional_text(text)),
        Err(e) => Err(e@),
    }
}

/// The mathematical value of an outcome that may hold a principal.
pub open spec fn optional_principal_outcome(r: Result<Option<Principal>, DfxError>) -> Result<
    Option<Seq<char>>,
    DfxErrorView,
> {
    match r {
        Ok(Some(id)) => Ok(Some(id@)),
        Ok(None) => Ok(None),
        Err(e) => Err(e@),
    }
}

/// The bind address of the network `local`, as `get_local_bind_address`
/// answers.
pub open spec fn local_bind_address(
    networks: Option<NameMap<ConfigNetwork>>,
    default: Seq<char>,
) -> Result<Seq<char>, DfxErrorView> {
    match resolve_network(networks, "local"@) {
        Some(ConfigNetworkView::ConfigLocalProvider { bind, .. }) => Ok(bind),
        Some(ConfigNetworkView::ConfigNetworkProvider { .. }) => Err(
            DfxErrorView::new(
                ErrorCauseView::ConfigError(
                    "Expected there to be a local network with a bind address."@,
                ),
            ),
        ),
        None => Ok(default),
    }
}

/// The id that the declarations fix for `canister` on `network`: a failure
/// where there are no declarations or none for `canister`; nothing where the
/// canister has no remote section or none for `network`.
pub open spec fn remote_canister_id(
    canisters: Option<NameMap<ConfigCanistersCanister>>,
    canister: Seq<char>,
    network: Seq<char>,
) -> Result<Option<Seq<char>>, DfxErrorView> {
    match canisters {
        None => Err(
            DfxErrorView::new(
                ErrorCauseView::ConfigError("No canisters in the configuration file."@),
            ),
        ),
        Some(declared) => if !declared@.contains_key(canister) {
            Err(
                DfxErrorView::new(
                    ErrorCauseView::NotFoundError(
                        "Canister "@ + canister + " not found in dfx.json"@,
                    ),
                ),
            )
        } else {
            match declared@[canister].remote {
                None => Ok(None),
                Some(remote) => if remote.id@.contains_key(network) {
                    Ok(Some(remote.id@[network]@))
                } else {
                    Ok(None)
                },
            }
        },
    }
}

/// The line that describes the search for a remote id.
pub open spec fn remote_id_context(canister: Seq<char>, network: Seq<char>) -> Seq<char> {
    "Failed to figure out if canister '"@ + canister + "' has a remote id on network '"@ + network
        + "'."@
}

/// The line that describes the question whether a canister is remote.
pub open spec fn is_remote_context(canister: Seq<char>, network: Seq<char>) -> Seq<char> {
    "Failed while determining if canister '"@ + canister + "' is remote on network '"@ + network
        + "'."@
}

/// The member `field` of the `initialization_values` of a declaration:
/// nothing where the declaration has no such values or they have no such
/// member, a failure where the member is no string.
pub open spec fn initialization_value(
    canister: ConfigCanistersCanister,
    field: Seq<char>,
) -> Result<Option<Seq<char>>, DfxErrorView> {
    match canister.extras.spec_get("initialization_values"@) {
        None => Ok(None),
        Some(values) => match values.spec_member(field) {
            None => Ok(None),
            Some(value) => match value.spec_as_text() {
                Some(text) => Ok(Some(text)),
                None => Err(
                    DfxErrorView::new(
                        ErrorCauseView::ConfigError("Field "@ + field + " is of the wrong type"@),
                    ),
                ),
            },
        },
    }
}

/// The member `field` of the `initialization_values` of the canister
/// `canister_name`; a failure where there are no declarations or none for it.
pub open spec fn canister_initialization_value(
    canisters: Option<NameMap<ConfigCanistersCanister>>,
    canister_name: Seq<char>,
    field: Seq<char>,
) -> Result<Option<Seq<char>>, DfxErrorView> {
    match canisters {
        None => Err(
            DfxErrorView::new(
                ErrorCauseView::ConfigError("No canisters in the configuration file."@),
            ),
        ),
        Some(declared) => if !declared@.contains_key(canister_name) {
            Err(
                DfxErrorView::new(
                    ErrorCauseView::NotFoundError("Cannot find canister '"@ + canister_name + "'."@),
                ),
            )
        } else {
            initialization_value(declared@[canister_name], field)
        },
    }
}

/// The name of the directory, beside the manifest, that holds the temporary
/// state of the project.
pub const TEMP_DIRECTORY_NAME: &'static str = ".dfx";

/// A manifest that was read from a file: where the file is, what it holds as
/// JSON, and what it says.
#[derive(Debug, PartialEq, Eq)]
pub struct Config {
    path: FileLocation,
    json: JsonValue,
    config: ConfigInterface,
}

impl Config {
    /// Where the manifest is.
    pub closed spec fn path(&self) -> FileLocationView {
        self.path@
    }

    /// What the manifest holds, as JSON.
    pub closed spec fn json(&self) -> JsonValue {
        self.json
    }

    /// What the manifest says.
    pub closed spec fn config(&self) -> ConfigInterface {
        self.config
    }

    /// The manifest in the file at `path`, which holds `json` and says
    /// `config`.
    pub fn new(path: FileLocation, json: JsonValue, config: ConfigInterface) -> (r: Config)
        ensures
            r.path() == path@,
            r.json() == json,
            r.config() == config,
    {
        Config { path, json, config }
    }

    /// Where the manifest is.
    pub fn get_path(&self) -> (r: &FileLocation)
        ensures
            r@ == self.path(),
    {
        &self.path
    }

    /// The directory that holds the temporary state of the project: `.dfx`
    /// in the project root.
    pub fn get_temp_path(&self) -> (r: FileLocation)
        ensures
            r@ == (FileLocationView {
                directory: self.path().directory,
                file_name: TEMP_DIRECTORY_NAME@,
            }),
    {
        FileLocation {
            directory: self.path.directory.clone(),
            file_name: String::from_str(TEMP_DIRECTORY_NAME),
        }
    }

    /// What the manifest holds, as JSON.
    pub fn get_json(&self) -> (r: &JsonValue)
        ensures
            *r == self.json(),
    {
        &self.json
    }

    /// What the manifest holds, as JSON, to be changed in place.
    pub fn get_mut_json(&mut self) -> (r: &mut JsonValue)
        ensures
            *r == old(self).json(),
            final(self).json() == *final(r),
            final(self).path() == old(self).path(),
            final(self).config() == old(self).config(),
    {
        &mut self.json
    }

    /// What the manifest says.
    pub fn get_config(&self) -> (r: &ConfigInterface)
        ensures
            *r == self.config(),
    {
        &self.config
    }

    /// The project root: the directory that holds the manifest.
    pub fn get_project_root(&self) -> (r: &str)
        ensures
            r@ == self.path().directory,
    {
        self.path.directory.as_str()
    }
}

} // verus!
