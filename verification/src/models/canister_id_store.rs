//! The ids that the canisters of a project have on one network: those that
//! the manifest fixes, which are only read, and those that were created
//! locally, which are kept in a file.

use crate::config::dfinity::{
    remote_canister_id, ConfigCanistersCanister, ConfigInterface, NetworkType,
};
use crate::error::{in_context, DfxError, DfxErrorView, ErrorCause, ErrorCauseView};
use crate::models::id_file::{
    decode_id_file, decoded_id_file, encode_id_file, encoded_id_file, entries_of_ids,
    entries_table, id_table, id_text, ids_from_entries, ids_wf, network_ids, same_ids,
    table_entries, CanisterIds, IdTable,
};
use crate::name_map::NameMap;
use crate::network::network_descriptor::NetworkDescriptor;
use crate::principal::{is_principal_text, Principal};
use crate::text::str_eq;
use vstd::prelude::*;
use vstd::string::StringExecFns;

verus! {

/// The ids of the canisters of a project on one network.
#[derive(Clone, Debug)]
pub struct CanisterIdStore {
    network_descriptor: NetworkDescriptor,
    path: String,
    // Only the ids read from and written to the id file; no remote ids.
    ids: CanisterIds,
    // The ids that the manifest fixes; never written to the id file.
    remote_ids: Option<CanisterIds>,
}

/// The file that holds the ids of a network: beside the manifest for a
/// persistent network, in the network's own directory for an ephemeral one.
pub open spec fn store_path(network_type: NetworkType, network_name: Seq<char>) -> Seq<char> {
    match network_type {
        NetworkType::Persistent => "canister_ids.json"@,
        NetworkType::Ephemeral => ".dfx/"@ + network_name + "/canister_ids.json"@,
    }
}

/// The id that a table holds for a canister on a network, where it is the
/// textual form of a principal.
pub open spec fn found_in(table: IdTable, name: Seq<char>, network: Seq<char>) -> Option<
    Seq<char>,
> {
    match id_text(table, name, network) {
        Some(text) => if is_principal_text(text) {
            Some(text)
        } else {
            None
        },
        None => None,
    }
}

/// The entry at position `i` holds `id` for `network`.
pub open spec fn holds_id(ids: CanisterIds, i: int, network: Seq<char>, id: Seq<char>) -> bool {
    network_ids(ids.values()[i]).contains_key(network) && network_ids(ids.values()[i])[network]
        == id
}

/// The name of the first canister, from position `from` on, that has the id
/// `id` on `network`.
pub open spec fn name_of_id(ids: CanisterIds, network: Seq<char>, id: Seq<char>, from: int) -> Option<
    Seq<char>,
>
    decreases ids.keys().len() - from,
{
    if from < 0 || from >= ids.keys().len() {
        None
    } else if holds_id(ids, from, network, id) {
        Some(ids.keys()[from])
    } else {
        name_of_id(ids, network, id, from + 1)
    }
}

/// The table after `id` was stored for `name` on `network`.
pub open spec fn table_with(table: IdTable, name: Seq<char>, network: Seq<char>, id: Seq<char>) -> IdTable {
    table.insert(
        name,
        (if table.contains_key(name) {
            table[name]
        } else {
            Map::empty()
        }).insert(network, id),
    )
}

/// The table after the id of `name` on `network` was removed.
pub open spec fn table_without(table: IdTable, name: Seq<char>, network: Seq<char>) -> IdTable {
    if table.contains_key(name) {
        table.insert(name, table[name].remove(network))
    } else {
        table
    }
}

/// The contents of the id file for these ids: the JSON text for the list of
/// the ids, in ascending order of the canister names and, for each canister,
/// of the network names.
pub open spec fn saved_ids(ids: CanisterIds) -> Seq<char> {
    encoded_id_file(table_entries(ids))
}

/// The ids that the file at `path` holds, given its contents, or the failure
/// to read them.
pub open spec fn loaded_ids(path: Seq<char>, content: Seq<char>) -> Result<IdTable, DfxErrorView> {
    match decoded_id_file(content) {
        Ok(entries) => Ok(entries_table(entries)),
        Err(message) => Err(
            DfxErrorView::new(ErrorCauseView::ConfigError(message)).with_context(
                "Cannot decode contents of file at '"@ + path + "'."@,
            ).with_context("Failed to load ids from storage at "@ + path + "."@),
        ),
    }
}

/// The ids with which a store for a network starts: those of the id file,
/// none where there is no such file.
pub open spec fn initial_ids(path: Seq<char>, stored: Option<Seq<char>>) -> Result<
    IdTable,
    DfxErrorView,
> {
    match stored {
        Some(content) => loaded_ids(path, content),
        None => Ok(Map::empty()),
    }
}

/// The failure to find an id, with the command that creates one.
pub open spec fn missing_id_error(network_name: Seq<char>, canister_name: Seq<char>) -> DfxErrorView {
    DfxErrorView::new(
        ErrorCauseView::NotFoundError(
            "Cannot find canister id. Please issue 'dfx canister "@ + (if network_name == "local"@ {
                ""@
            } else {
                "--network "@ + network_name + " "@
            }) + "create "@ + canister_name + "'."@,
        ),
    )
}

/// The manifest fixes at least one id for this canister.
pub open spec fn declares_remote(canister: ConfigCanistersCanister) -> bool {
    canister.remote is Some && canister.remote->0.id.keys().len() > 0
}

/// The ids of one canister, network name to textual form.
pub open spec fn principal_texts(ids: NameMap<Principal>) -> Map<Seq<char>, Seq<char>> {
    ids@.map_values(|id: Principal| id@)
}

/// The ids that the manifest fixes: for each canister that has any, its ids
/// network by network.
pub open spec fn remote_table(canisters: NameMap<ConfigCanistersCanister>) -> IdTable {
    Map::new(
        |name: Seq<char>| canisters@.contains_key(name) && declares_remote(canisters@[name]),
        |name: Seq<char>| principal_texts(canisters@[name].remote->0.id),
    )
}

/// The remote ids of a project: nothing where there is no manifest, where it
/// declares no canisters, or where none of them has a remote id.
pub open spec fn remote_ids_of(config: Option<ConfigInterface>) -> Option<IdTable> {
    match config {
        Some(ConfigInterface { canisters: Some(canisters), .. }) => if remote_table(canisters).dom()
            =~= Set::empty() {
            None
        } else {
            Some(remote_table(canisters))
        },
        _ => None,
    }
}

/// The mathematical value of an outcome that holds stored ids.
pub open spec fn ids_outcome(r: Result<CanisterIds, DfxError>) -> Result<IdTable, DfxErrorView> {
    match r {
        Ok(ids) => Ok(id_table(ids)),
        Err(e) => Err(e@),
    }
}

/// The textual form of an optional principal.
pub open spec fn optional_principal(id: Option<Principal>) -> Option<Seq<char>> {
    match id {
        Some(p) => Some(p@),
        None => None,
    }
}

/// The table of optional stored ids.
pub open spec fn optional_table(ids: Option<CanisterIds>) -> Option<IdTable> {
    match ids {
        Some(t) => Some(id_table(t)),
        None => None,
    }
}

/// The name of a canister in `ids` under which `canister_id` is stored for
/// `network`: the first in the order of the names.
fn first_name_with_id<'a>(ids: &'a CanisterIds, network: &str, canister_id: &str) -> (r: Option<
    &'a String,
>)
    ensures
        match r {
            Some(name) => name_of_id(*ids, network@, canister_id@, 0) == Some(name@),
            None => name_of_id(*ids, network@, canister_id@, 0) is None,
        },
{
    let count = ids.len();
    let mut i: usize = 0;
    while i < count
        invariant
            0 <= i <= count,
            count == ids.keys().len(),
            ids.wf(),
            name_of_id(*ids, network@, canister_id@, 0) == name_of_id(
                *ids,
                network@,
                canister_id@,
                i as int,
            ),
        decreases count - i,
    {
        let per_network = ids.value_at(i);
        let found = match per_network.get(network) {
            Some(id) => str_eq(id.as_str(), canister_id),
            None => false,
        };
        proof {
            assert(found == holds_id(*ids, i as int, network@, canister_id@));
        }
        if found {
            return Some(ids.key_at(i));
        }
        i += 1;
    }
    None
}

/// The id that `ids` holds for `canister_name` on `network`, where it is the
/// textual form of a principal.
fn find_in_table(ids: &CanisterIds, network: &str, canister_name: &str) -> (r: Option<Principal>)
    ensures
        optional_principal(r) == found_in(id_table(*ids), canister_name@, network@),
{
    match ids.get(canister_name) {
        Some(per_network) => match per_network.get(network) {
            Some(id) => Principal::from_text(id.as_str()),
            None => None,
        },
        None => None,
    }
}

/// The ids of one canister, each in its textual form.
fn texts_of_principals(ids: &NameMap<Principal>) -> (r: NameMap<String>)
    ensures
        r.wf(),
        network_ids(r) == principal_texts(*ids),
{
    let mut out: NameMap<String> = NameMap::new();
    let count = ids.len();
    let mut j: usize = 0;
    proof {
        assert(network_ids(out) =~= Map::<Seq<char>, Seq<char>>::empty());
    }
    while j < count
        invariant
            0 <= j <= count,
            count == ids.keys().len(),
            ids.wf(),
            out.wf(),
            forall|n: Seq<char>| #[trigger]
                network_ids(out).contains_key(n) <==> exists|k: int|
                    0 <= k < j && #[trigger] ids.keys()[k] == n,
            forall|n: Seq<char>| #[trigger]
                network_ids(out).contains_key(n) ==> network_ids(out)[n] == ids@[n]@,
        decreases count - j,
    {
        let ghost before = out;
        out.insert(ids.key_at(j).clone(), ids.value_at(j).to_text());
        proof {
            let name = ids.keys()[j as int];
            ids.lemma_entry(j as int);
            assert(network_ids(out) =~= network_ids(before).insert(name, ids@[name]@));
            assert forall|n: Seq<char>| #[trigger]
                network_ids(out).contains_key(n) <==> exists|k: int|
                    0 <= k < j + 1 && #[trigger] ids.keys()[k] == n by {
                if network_ids(out).contains_key(n) {
                    if n == name {
                        assert(ids.keys()[j as int] == n);
                    } else {
                        assert(network_ids(before).contains_key(n));
                        let k = choose|k: int| 0 <= k < j && #[trigger] ids.keys()[k] == n;
                        assert(0 <= k < j + 1 && ids.keys()[k] == n);
                    }
                }
                if exists|k: int| 0 <= k < j + 1 && #[trigger] ids.keys()[k] == n {
                    let k = choose|k: int| 0 <= k < j + 1 && #[trigger] ids.keys()[k] == n;
                    if k < j {
                        assert(network_ids(before).contains_key(n));
                    }
                }
            }
        }
        j += 1;
    }
    proof {
        assert forall|n: Seq<char>| #[trigger]
            network_ids(out).contains_key(n) <==> principal_texts(*ids).contains_key(n) by {
            ids.lemma_contains(n);
            if ids@.contains_key(n) {
                let k = ids.keys().index_of(n);
                assert(ids.keys()[k] == n);
            }
        }
        assert(network_ids(out) =~= principal_texts(*ids));
    }
    out
}

/// The ids that the manifest fixes for the canisters of the project.
pub fn get_remote_ids(config: Option<&ConfigInterface>) -> (r: Option<CanisterIds>)
    ensures
        optional_table(r) == remote_ids_of(
            match config {
                Some(c) => Some(*c),
                None => None,
            },
        ),
        r matches Some(ids) ==> ids_wf(ids),
{
    let canisters = match config {
        Some(config) => match &config.canisters {
            Some(canisters) => canisters,
            None => {
                return None;
            },
        },
        None => {
            return None;
        },
    };
    let mut remote_ids: CanisterIds = NameMap::new();
    let count = canisters.len();
    let mut i: usize = 0;
    proof {
        assert(id_table(remote_ids) =~= Map::<Seq<char>, Map<Seq<char>, Seq<char>>>::empty());
    }
    while i < count
        invariant
            0 <= i <= count,
            count == canisters.keys().len(),
            canisters.wf(),
            ids_wf(remote_ids),
            forall|n: Seq<char>| #[trigger]
                id_table(remote_ids).contains_key(n) <==> exists|k: int|
                    0 <= k < i && #[trigger] canisters.keys()[k] == n && declares_remote(
                        canisters.values()[k],
                    ),
            forall|n: Seq<char>| #[trigger]
                id_table(remote_ids).contains_key(n) ==> id_table(remote_ids)[n] == principal_texts(
                    canisters@[n].remote->0.id,
                ),
        decreases count - i,
    {
        let ghost before = remote_ids;
        let ghost name = canisters.keys()[i as int];
        let canister = canisters.value_at(i);
        proof {
            canisters.lemma_entry(i as int);
        }
        let mut entered = false;
        match &canister.remote {
            Some(remote) => {
                if remote.id.len() > 0 {
                    let per_network = texts_of_principals(&remote.id);
                    remote_ids.insert(canisters.key_at(i).clone(), per_network);
                    entered = true;
                    proof {
                        assert(id_table(remote_ids) =~= id_table(before).insert(
                            name,
                            principal_texts(remote.id),
                        ));
                    }
                }
            },
            None => {},
        }
        proof {
            assert(entered == declares_remote(*canister));
            if !entered {
                assert(id_table(remote_ids) =~= id_table(before));
            }
            assert forall|n: Seq<char>| #[trigger]
                id_table(remote_ids).contains_key(n) <==> exists|k: int|
                    0 <= k < i + 1 && #[trigger] canisters.keys()[k] == n && declares_remote(
                        canisters.values()[k],
                    ) by {
                if id_table(remote_ids).contains_key(n) {
                    if entered && n == name {
                        assert(canisters.keys()[i as int] == n && declares_remote(
                            canisters.values()[i as int],
                        ));
                    } else {
                        assert(id_table(before).contains_key(n));
                        let k = choose|k: int|
                            0 <= k < i && #[trigger] canisters.keys()[k] == n && declares_remote(
                                canisters.values()[k],
                            );
                        assert(0 <= k < i + 1 && canisters.keys()[k] == n && declares_remote(
                            canisters.values()[k],
                        ));
                    }
                }
                if exists|k: int|
                    0 <= k < i + 1 && #[trigger] canisters.keys()[k] == n && declares_remote(
                        canisters.values()[k],
                    ) {
                    let k = choose|k: int|
                        0 <= k < i + 1 && #[trigger] canisters.keys()[k] == n && declares_remote(
                            canisters.values()[k],
                        );
                    if k < i {
                        assert(id_table(before).contains_key(n));
                    }
                }
            }
        }
        i += 1;
    }
    proof {
        let table = remote_table(*canisters);
        assert forall|n: Seq<char>| #[trigger]
            id_table(remote_ids).contains_key(n) <==> table.contains_key(n) by {
            canisters.lemma_contains(n);
            if id_table(remote_ids).contains_key(n) {
                let k = choose|k: int|
                    0 <= k < count && #[trigger] canisters.keys()[k] == n && declares_remote(
                        canisters.values()[k],
                    );
                canisters.lemma_entry(k);
            }
            if table.contains_key(n) {
                let k = canisters.keys().index_of(n);
                canisters.lemma_entry(k);
                assert(canisters.keys()[k] == n && declares_remote(canisters.values()[k]));
            }
        }
        assert(id_table(remote_ids) =~= table);
        assert(remote_ids@.dom() =~= id_table(remote_ids).dom());
        remote_ids.lemma_dom();
        if remote_ids.keys().len() == 0 {
            assert(remote_ids.keys().to_set() =~= Set::<Seq<char>>::empty());
        } else {
            assert(remote_ids.keys().contains(remote_ids.keys()[0]));
            assert(table.dom().contains(remote_ids.keys()[0]));
        }
    }
    if remote_ids.is_empty() {
        None
    } else {
        Some(remote_ids)
    }
}

impl CanisterIdStore {
    /// The network that the store is for.
    pub closed spec fn network(&self) -> NetworkDescriptor {
        self.network_descriptor
    }

    /// The name of the network that the store is for.
    pub open spec fn network_name(&self) -> Seq<char> {
        self.network().name@
    }

    /// The file that holds the local ids.
    pub closed spec fn path(&self) -> Seq<char> {
        self.path@
    }

    /// The ids that were created locally.
    pub closed spec fn local_ids(&self) -> CanisterIds {
        self.ids
    }

    /// The ids that the manifest fixes.
    pub closed spec fn remote_ids(&self) -> Option<CanisterIds> {
        self.remote_ids
    }

    /// The id of a canister: the one that the manifest fixes, else the one
    /// that was created locally.
    pub open spec fn spec_find(&self, canister_name: Seq<char>) -> Option<Seq<char>> {
        let remote = match self.remote_ids() {
            Some(ids) => found_in(id_table(ids), canister_name, self.network_name()),
            None => None,
        };
        if remote is Some {
            remote
        } else {
            found_in(id_table(self.local_ids()), canister_name, self.network_name())
        }
    }

    /// The name of the canister with an id: by the ids that the manifest
    /// fixes, else by those that were created locally.
    pub open spec fn spec_get_name(&self, canister_id: Seq<char>) -> Option<Seq<char>> {
        let remote = match self.remote_ids() {
            Some(ids) => name_of_id(ids, self.network_name(), canister_id, 0),
            None => None,
        };
        if remote is Some {
            remote
        } else {
            name_of_id(self.local_ids(), self.network_name(), canister_id, 0)
        }
    }

    /// The file that holds the ids of a network, relative to the project root.
    pub fn path_for(network_descriptor: &NetworkDescriptor) -> (r: String)
        ensures
            r@ == store_path(network_descriptor.network_type, network_descriptor.name@),
    {
        match network_descriptor.network_type {
            NetworkType::Persistent => String::from_str("canister_ids.json"),
            NetworkType::Ephemeral => {
                let mut path = String::from_str(".dfx/");
                path.append(network_descriptor.name.as_str());
                path.append("/canister_ids.json");
                path
            },
        }
    }

    /// The store for a network of a project. `config` is the manifest, where
    /// the project has one; `stored` holds the contents of the id file of the
    /// network (see `path_for`), where that file exists.
    pub fn for_env(
        network_descriptor: &NetworkDescriptor,
        config: Option<&ConfigInterface>,
        stored: Option<&str>,
    ) -> (r: Result<Self, DfxError>)
        ensures
            match r {
                Ok(store) => {
                    &&& initial_ids(
                        store_path(network_descriptor.network_type, network_descriptor.name@),
                        match stored {
                            Some(s) => Some(s@),
                            None => None,
                        },
                    ) == Ok::<IdTable, DfxErrorView>(id_table(store.local_ids()))
                    &&& ids_wf(store.local_ids())
                    &&& store.network_name() == network_descriptor.name@
                    &&& store.network().network_type == network_descriptor.network_type
                    &&& store.path() == store_path(
                        network_descriptor.network_type,
                        network_descriptor.name@,
                    )
                    &&& optional_table(store.remote_ids()) == remote_ids_of(
                        match config {
                            Some(c) => Some(*c),
                            None => None,
                        },
                    )
                },
                Err(e) => in_context(
                    in_context(
                        initial_ids(
                            store_path(network_descriptor.network_type, network_descriptor.name@),
                            match stored {
                                Some(s) => Some(s@),
                                None => None,
                            },
                        ),
                        "Failed to load canister id store for network '"@
                            + network_descriptor.name@ + "'."@,
                    ),
                    "Failed to load canister id store."@,
                ) == Err::<IdTable, DfxErrorView>(e@),
            },
    {
        match CanisterIdStore::for_network(network_descriptor, stored) {
            Ok(store) => {
                let remote_ids = get_remote_ids(config);
                Ok(
                    CanisterIdStore {
                        network_descriptor: store.network_descriptor,
                        path: store.path,
                        ids: store.ids,
                        remote_ids,
                    },
                )
            },
            Err(e) => Err(e.with_context(String::from_str("Failed to load canister id store."))),
        }
    }

    /// The store for a network, without remote ids. `stored` holds the
    /// contents of the id file of the network (see `path_for`), where that
    /// file exists.
    pub fn for_network(network_descriptor: &NetworkDescriptor, stored: Option<&str>) -> (r: Result<
        Self,
        DfxError,
    >)
        ensures
            match r {
                Ok(store) => {
                    &&& initial_ids(
                        store_path(network_descriptor.network_type, network_descriptor.name@),
                        match stored {
                            Some(s) => Some(s@),
                            None => None,
                        },
                    ) == Ok::<IdTable, DfxErrorView>(id_table(store.local_ids()))
                    &&& ids_wf(store.local_ids())
                    &&& store.network_name() == network_descriptor.name@
                    &&& store.network().network_type == network_descriptor.network_type
                    &&& store.path() == store_path(
                        network_descriptor.network_type,
                        network_descriptor.name@,
                    )
                    &&& store.remote_ids() is None
                },
                Err(e) => in_context(
                    initial_ids(
                        store_path(network_descriptor.network_type, network_descriptor.name@),
                        match stored {
                            Some(s) => Some(s@),
                            None => None,
                        },
                    ),
                    "Failed to load canister id store for network '"@ + network_descriptor.name@
                        + "'."@,
                ) == Err::<IdTable, DfxErrorView>(e@),
            },
    {
        let path = CanisterIdStore::path_for(network_descriptor);
        let ids = match stored {
            Some(content) => match CanisterIdStore::load_ids(path.as_str(), content) {
                Ok(ids) => ids,
                Err(e) => {
                    let mut line = String::from_str(
                        "Failed to load canister id store for network '",
                    );
                    line.append(network_descriptor.name.as_str());
                    line.append("'.");
                    return Err(e.with_context(line));
                },
            },
            None => {
                let empty: CanisterIds = NameMap::new();
                proof {
                    assert(id_table(empty) =~= Map::<
                        Seq<char>,
                        Map<Seq<char>, Seq<char>>,
                    >::empty());
                }
                empty
            },
        };
        Ok(
            CanisterIdStore {
                network_descriptor: network_descriptor.clone(),
                path,
                ids,
                remote_ids: None,
            },
        )
    }

    /// The file that holds the local ids, relative to the project root.
    pub fn get_path(&self) -> (r: &String)
        ensures
            r@ == self.path(),
    {
        &self.path
    }

    /// The name of the canister that has the id `canister_id` on the network
    /// of the store. Where several canisters have it, the first in the order
    /// of the names is returned; the ids that the manifest fixes are searched
    /// before those that were created locally.
    pub fn get_name(&self, canister_id: &str) -> (r: Option<&String>)
        ensures
            match r {
                Some(name) => self.spec_get_name(canister_id@) == Some(name@),
                None => self.spec_get_name(canister_id@) is None,
            },
    {
        let remote = match &self.remote_ids {
            Some(remote_ids) => self.get_name_in(canister_id, remote_ids),
            None => None,
        };
        match remote {
            Some(name) => Some(name),
            None => self.get_name_in(canister_id, &self.ids),
        }
    }

    /// The name of the canister in `canister_ids` that has the id
    /// `canister_id` on the network of the store: the first in the order of
    /// the names.
    pub fn get_name_in<'a, 'b>(&'a self, canister_id: &'b str, canister_ids: &'a CanisterIds) -> (r:
        Option<&'a String>)
        ensures
            match r {
                Some(name) => name_of_id(*canister_ids, self.network_name(), canister_id@, 0)
                    == Some(name@),
                None => name_of_id(*canister_ids, self.network_name(), canister_id@, 0) is None,
            },
    {
        first_name_with_id(canister_ids, self.network_descriptor.name.as_str(), canister_id)
    }

    /// Reads the ids out of the contents of the id file at `path`.
    pub fn load_ids(path: &str, content: &str) -> (r: Result<CanisterIds, DfxError>)
        ensures
            ids_outcome(r) == loaded_ids(path@, content@),
            r matches Ok(ids) ==> ids_wf(ids),
    {
        match decode_id_file(content) {
            Ok(entries) => Ok(ids_from_entries(&entries)),
            Err(message) => {
                let mut decode = String::from_str("Cannot decode contents of file at '");
                decode.append(path);
                decode.append("'.");
                let mut load = String::from_str("Failed to load ids from storage at ");
                load.append(path);
                load.append(".");
                Err(
                    DfxError::new(ErrorCause::ConfigError(message)).with_context(
                        decode,
                    ).with_context(load),
                )
            },
        }
    }

    /// The contents to write to the id file: the local ids as JSON. This
    /// always succeeds.
    pub fn save_ids(&self) -> (r: Result<String, DfxError>)
        ensures
            ids_wf(self.local_ids()),
            r matches Ok(content) && content@ == saved_ids(self.local_ids()),
    {
        let entries = entries_of_ids(&self.ids);
        match encode_id_file(&entries) {
            Ok(content) => Ok(content),
            Err(message) => Err(
                DfxError::new(ErrorCause::IoError(message)).with_context(
                    String::from_str("Failed to serialize ids."),
                ),
            ),
        }
    }

    /// Whether `content`, read as the id file of the store, holds the local
    /// ids of the store and no others: whether a store that starts from
    /// `content` starts with the ids that this store has now.
    pub fn reads_back(&self, content: &str) -> (r: bool)
        ensures
            r == (loaded_ids(self.path(), content@) == Ok::<IdTable, DfxErrorView>(
                id_table(self.local_ids()),
            )),
    {
        match CanisterIdStore::load_ids(self.path.as_str(), content) {
            Ok(ids) => same_ids(&ids, &self.ids),
            Err(_) => false,
        }
    }

    /// The id of the canister on the network of the store: the one that the
    /// manifest fixes, else the one that was created locally.
    pub fn find(&self, canister_name: &str) -> (r: Option<Principal>)
        ensures
            optional_principal(r) == self.spec_find(canister_name@),
    {
        let remote = match &self.remote_ids {
            Some(remote_ids) => self.find_in(canister_name, remote_ids),
            None => None,
        };
        match remote {
            Some(id) => Some(id),
            None => self.find_in(canister_name, &self.ids),
        }
    }

    /// The id that `canister_ids` holds for the canister on the network of
    /// the store, where it is the textual form of a principal.
    fn find_in(&self, canister_name: &str, canister_ids: &CanisterIds) -> (r: Option<Principal>)
        ensures
            optional_principal(r) == found_in(
                id_table(*canister_ids),
                canister_name@,
                self.network_name(),
            ),
    {
        find_in_table(canister_ids, self.network_descriptor.name.as_str(), canister_name)
    }

    /// The id of the canister on the network of the store; where there is
    /// none, a failure that names the command which creates one.
    pub fn get(&self, canister_name: &str) -> (r: Result<Principal, DfxError>)
        ensures
            match r {
                Ok(id) => self.spec_find(canister_name@) == Some(id@),
                Err(e) => self.spec_find(canister_name@) is None && e@ == missing_id_error(
                    self.network_name(),
                    canister_name@,
                ).with_context("Failed to determine id for canister '"@ + canister_name@ + "'."@),
            },
    {
        match self.find(canister_name) {
            Some(id) => Ok(id),
            None => {
                let mut message = String::from_str(
                    "Cannot find canister id. Please issue 'dfx canister ",
                );
                if !str_eq(self.network_descriptor.name.as_str(), "local") {
                    message.append("--network ");
                    message.append(self.network_descriptor.name.as_str());
                    message.append(" ");
                }
                message.append("create ");
                message.append(canister_name);
                message.append("'.");
                let mut line = String::from_str("Failed to determine id for canister '");
                line.append(canister_name);
                line.append("'.");
                proof {
                    assert(""@ =~= Seq::<char>::empty()) by {
                        reveal_strlit("");
                    }
                    let head = "Cannot find canister id. Please issue 'dfx canister "@;
                    assert(head + ""@ =~= head);
                    assert(head + "--network "@ + self.network_name() + " "@ =~= head + (
                    "--network "@ + self.network_name() + " "@));
                }
                Err(DfxError::new(ErrorCause::NotFoundError(message)).with_context(line))
            },
        }
    }

    /// Stores `canister_id` as the local id of `canister_name` on the network
    /// of the store, and returns the new contents of the id file. This always
    /// succeeds.
    pub fn add(&mut self, canister_name: &str, canister_id: &str) -> (r: Result<String, DfxError>)
        ensures
            final(self).network() == old(self).network(),
            final(self).path() == old(self).path(),
            final(self).remote_ids() == old(self).remote_ids(),
            ids_wf(final(self).local_ids()),
            id_table(final(self).local_ids()) == table_with(
                id_table(old(self).local_ids()),
                canister_name@,
                old(self).network_name(),
                canister_id@,
            ),
            r matches Ok(content) && content@ == saved_ids(final(self).local_ids()),
    {
        let ghost before = self.ids;
        let mut per_network = match self.ids.remove(canister_name) {
            Some(existing) => existing,
            None => NameMap::new(),
        };
        let ghost taken = per_network;
        proof {
            if before@.contains_key(canister_name@) {
                assert(network_ids(taken) == id_table(before)[canister_name@]);
            } else {
                assert(network_ids(taken) =~= Map::<Seq<char>, Seq<char>>::empty());
            }
        }
        per_network.insert(self.network_descriptor.name.clone(), canister_id.to_owned());
        proof {
            assert(network_ids(per_network) =~= network_ids(taken).insert(
                self.network_descriptor.name@,
                canister_id@,
            ));
        }
        self.ids.insert(canister_name.to_owned(), per_network);
        proof {
            assert(self.ids@ =~= before@.insert(canister_name@, per_network));
            assert(id_table(self.ids) =~= table_with(
                id_table(before),
                canister_name@,
                self.network_descriptor.name@,
                canister_id@,
            ));
        }
        match self.save_ids() {
            Ok(content) => Ok(content),
            Err(e) => {
                let mut line = String::from_str("Failed to add canister with name '");
                line.append(canister_name);
                line.append("' and id '");
                line.append(canister_id);
                line.append("' to canister id store.");
                Err(e.with_context(line))
            },
        }
    }

    /// Removes the local id of `canister_name` on the network of the store,
    /// if there is one, and returns the new contents of the id file. This
    /// always succeeds.
    pub fn remove(&mut self, canister_name: &str) -> (r: Result<String, DfxError>)
        ensures
            final(self).network() == old(self).network(),
            final(self).path() == old(self).path(),
            final(self).remote_ids() == old(self).remote_ids(),
            ids_wf(final(self).local_ids()),
            id_table(final(self).local_ids()) == table_without(
                id_table(old(self).local_ids()),
                canister_name@,
                old(self).network_name(),
            ),
            r matches Ok(content) && content@ == saved_ids(final(self).local_ids()),
    {
        let ghost before = self.ids;
        match self.ids.remove(canister_name) {
            Some(existing) => {
                let mut per_network = existing;
                let ghost taken = per_network;
                per_network.remove(self.network_descriptor.name.as_str());
                proof {
                    assert(network_ids(taken) == id_table(before)[canister_name@]);
                    assert(network_ids(per_network) =~= network_ids(taken).remove(
                        self.network_descriptor.name@,
                    ));
                }
                self.ids.insert(canister_name.to_owned(), per_network);
                proof {
                    assert(self.ids@ =~= before@.insert(canister_name@, per_network));
                    assert(id_table(self.ids) =~= table_without(
                        id_table(before),
                        canister_name@,
                        self.network_descriptor.name@,
                    ));
                }
            },
            None => {
                proof {
                    assert(self.ids@ =~= before@);
                    assert(id_table(self.ids) =~= id_table(before));
                }
            },
        }
        match self.save_ids() {
            Ok(content) => Ok(content),
            Err(e) => {
                let mut line = String::from_str("Failed to remove canister ");
                line.append(canister_name);
                line.append(" from id store.");
                Err(e.with_context(line))
            },
        }
    }
}

/// The search for the name of an id, from position `from` on, returns the
/// first position that holds the id.
proof fn lemma_name_of_id(ids: CanisterIds, network: Seq<char>, id: Seq<char>, from: int)
    requires
        0 <= from <= ids.keys().len(),
    ensures
        match name_of_id(ids, network, id, from) {
            Some(name) => exists|i: int|
                from <= i < ids.keys().len() && #[trigger] holds_id(ids, i, network, id)
                    && ids.keys()[i] == name && forall|j: int|
                    from <= j < i ==> !holds_id(ids, j, network, id),
            None => forall|j: int| from <= j < ids.keys().len() ==> !holds_id(ids, j, network, id),
        },
    decreases ids.keys().len() - from,
{
    if from < ids.keys().len() {
        if holds_id(ids, from, network, id) {
        } else {
            lemma_name_of_id(ids, network, id, from + 1);
            match name_of_id(ids, network, id, from + 1) {
                Some(name) => {
                    let i = choose|i: int|
                        from + 1 <= i < ids.keys().len() && #[trigger] holds_id(ids, i, network, id)
                            && ids.keys()[i] == name && forall|j: int|
                            from + 1 <= j < i ==> !holds_id(ids, j, network, id);
                    assert(from <= i < ids.keys().len() && holds_id(ids, i, network, id)
                        && ids.keys()[i] == name && forall|j: int|
                        from <= j < i ==> !holds_id(ids, j, network, id));
                },
                None => {},
            }
        }
    }
}

/// Where several canisters have the same id on a network, the name that is
/// found is the one that comes first in lexicographic order; a name is found
/// exactly when some canister has the id.
pub proof fn law_name_of_id_is_first(ids: CanisterIds, network: Seq<char>, id: Seq<char>)
    requires
        ids.wf(),
    ensures
        name_of_id(ids, network, id, 0) is Some <==> exists|i: int|
            0 <= i < ids.keys().len() && #[trigger] holds_id(ids, i, network, id),
        name_of_id(ids, network, id, 0) matches Some(name) ==> exists|i: int|
            0 <= i < ids.keys().len() && #[trigger] holds_id(ids, i, network, id) && ids.keys()[i]
                == name,
        name_of_id(ids, network, id, 0) matches Some(name) ==> ids@.contains_key(name)
            && network_ids(ids@[name]).contains_key(network) && network_ids(ids@[name])[network]
            == id,
        name_of_id(ids, network, id, 0) matches Some(name) ==> forall|i: int|
            0 <= i < ids.keys().len() && #[trigger] holds_id(ids, i, network, id) ==> name
                == ids.keys()[i] || crate::text::lex_less(name, ids.keys()[i]),
{
    lemma_name_of_id(ids, network, id, 0);
    match name_of_id(ids, network, id, 0) {
        Some(name) => {
            let i = choose|i: int|
                0 <= i < ids.keys().len() && #[trigger] holds_id(ids, i, network, id)
                    && ids.keys()[i] == name && forall|j: int|
                    0 <= j < i ==> !holds_id(ids, j, network, id);
            ids.lemma_entry(i);
        },
        None => {},
    }
}

/// An id that the manifest fixes for a canister is the one that is found,
/// whatever was stored locally for that canister.
pub proof fn law_remote_id_shadows_local(store: CanisterIdStore, canister_name: Seq<char>)
    requires
        store.remote_ids() is Some,
        found_in(id_table(store.remote_ids()->0), canister_name, store.network_name()) is Some,
    ensures
        store.spec_find(canister_name) == found_in(
            id_table(store.remote_ids()->0),
            canister_name,
            store.network_name(),
        ),
{
}

/// Removing the local id of a canister changes what is found for that
/// canister alone, and leaves an id that the manifest fixes for it in place:
/// afterwards the canister has its remote id, or none.
pub proof fn law_remove_keeps_remote_id(
    before: CanisterIdStore,
    after: CanisterIdStore,
    removed: Seq<char>,
    canister_name: Seq<char>,
)
    requires
        after.network() == before.network(),
        after.remote_ids() == before.remote_ids(),
        id_table(after.local_ids()) == table_without(
            id_table(before.local_ids()),
            removed,
            before.network_name(),
        ),
    ensures
        canister_name != removed ==> after.spec_find(canister_name) == before.spec_find(
            canister_name,
        ),
        after.spec_find(removed) == (match before.remote_ids() {
            Some(ids) => found_in(id_table(ids), removed, before.network_name()),
            None => None,
        }),
{
}

/// After an id was stored for a canister, it is the id that is found for the
/// canister, unless the manifest fixes one or the id is not the textual form
/// of a principal; what is found for other canisters is the same as before.
pub proof fn law_add_then_find(
    before: CanisterIdStore,
    after: CanisterIdStore,
    added: Seq<char>,
    id: Seq<char>,
    canister_name: Seq<char>,
)
    requires
        after.network() == before.network(),
        after.remote_ids() == before.remote_ids(),
        id_table(after.local_ids()) == table_with(
            id_table(before.local_ids()),
            added,
            before.network_name(),
            id,
        ),
    ensures
        canister_name != added ==> after.spec_find(canister_name) == before.spec_find(
            canister_name,
        ),
        after.spec_find(added) == (match before.remote_ids() {
            Some(ids) if found_in(id_table(ids), added, before.network_name()) is Some => found_in(
                id_table(ids),
                added,
                before.network_name(),
            ),
            _ => if is_principal_text(id) {
                Some(id)
            } else {
                None
            },
        }),
{
}

/// Where the contents that a store wrote read back as the ids of the store,
/// which is what `reads_back` tests, a store that starts from those contents,
/// for the same network and with the same remote ids, has the same local ids
/// and finds for every canister what the writing store finds.
pub proof fn law_reloaded_store_finds_the_same(
    written: CanisterIdStore,
    reloaded: CanisterIdStore,
    content: Seq<char>,
    canister_name: Seq<char>,
)
    requires
        loaded_ids(written.path(), content) == Ok::<IdTable, DfxErrorView>(
            id_table(written.local_ids()),
        ),
        initial_ids(written.path(), Some(content)) == Ok::<IdTable, DfxErrorView>(
            id_table(reloaded.local_ids()),
        ),
        reloaded.network_name() == written.network_name(),
        optional_table(reloaded.remote_ids()) == optional_table(written.remote_ids()),
    ensures
        id_table(reloaded.local_ids()) == id_table(written.local_ids()),
        reloaded.spec_find(canister_name) == written.spec_find(canister_name),
{
}

/// After an id was stored for a canister, and where the contents written
/// then read back as the ids of the store, a store that starts from those
/// contents, for the same network and with the same remote ids, finds that id
/// for the canister, unless the manifest fixes one or the id is not the
/// textual form of a principal.
pub proof fn law_added_id_is_found_after_reload(
    before: CanisterIdStore,
    written: CanisterIdStore,
    reloaded: CanisterIdStore,
    content: Seq<char>,
    added: Seq<char>,
    id: Seq<char>,
)
    requires
        written.network() == before.network(),
        written.remote_ids() == before.remote_ids(),
        id_table(written.local_ids()) == table_with(
            id_table(before.local_ids()),
            added,
            before.network_name(),
            id,
        ),
        loaded_ids(written.path(), content) == Ok::<IdTable, DfxErrorView>(
            id_table(written.local_ids()),
        ),
        initial_ids(written.path(), Some(content)) == Ok::<IdTable, DfxErrorView>(
            id_table(reloaded.local_ids()),
        ),
        reloaded.network_name() == written.network_name(),
        optional_table(reloaded.remote_ids()) == optional_table(written.remote_ids()),
    ensures
        reloaded.spec_find(added) == (match before.remote_ids() {
            Some(ids) if found_in(id_table(ids), added, before.network_name()) is Some => found_in(
                id_table(ids),
                added,
                before.network_name(),
            ),
            _ => if is_principal_text(id) {
                Some(id)
            } else {
                None
            },
        }),
{
    law_add_then_find(before, written, added, id, added);
    law_reloaded_store_finds_the_same(written, reloaded, content, added);
}

/// The remote ids of a project hold, for a declared canister and a network,
/// the id that the manifest fixes for that canister on that network, and
/// nothing where it fixes none.
pub proof fn law_remote_ids_are_those_of_the_manifest(
    canisters: NameMap<ConfigCanistersCanister>,
    canister_name: Seq<char>,
    network: Seq<char>,
)
    requires
        canisters@.contains_key(canister_name),
    ensures
        remote_canister_id(Some(canisters), canister_name, network) == Ok::<
            Option<Seq<char>>,
            DfxErrorView,
        >(id_text(remote_table(canisters), canister_name, network)),
{
    match canisters@[canister_name].remote {
        Some(remote) => {
            remote.id.lemma_contains(network);
        },
        None => {},
    }
}

} // verus!
