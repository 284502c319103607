//! The file that holds the canister ids of a project: a JSON object from
//! canister names to objects from network names to ids.

use crate::name_map::{lemma_sorted_names_unique, strictly_sorted, NameMap};
use crate::text::str_eq;
use std::collections::BTreeMap;
use vstd::prelude::*;

verus! {

/// Canister name to network name to id, as stored.
pub type CanisterIds = NameMap<NameMap<String>>;

/// The ids of one canister, network by network, in the order of the file.
pub type NetworkPairs = Seq<(Seq<char>, Seq<char>)>;

/// The canisters of an id file, each with its ids, in the order of the file.
pub type IdEntries = Seq<(Seq<char>, NetworkPairs)>;

/// Canister name to network name to id.
pub type IdTable = Map<Seq<char>, Map<Seq<char>, Seq<char>>>;

/// What `serde_json::from_str` makes of a text that is read as a map from
/// strings to maps from strings to strings: the entries of the map in the
/// order in which the map hands them out, or the text of the error.
pub uninterp spec fn decoded_id_file(text: Seq<char>) -> Result<IdEntries, Seq<char>>;

/// What `serde_json::to_string_pretty` writes for the map from strings to maps
/// from strings to strings that has these entries.
pub uninterp spec fn encoded_id_file(entries: IdEntries) -> Seq<char>;

/// The network names of a list of ids, in order.
pub open spec fn pair_names(pairs: NetworkPairs) -> Seq<Seq<char>> {
    Seq::new(pairs.len(), |j: int| pairs[j].0)
}

/// The canister names of a list of entries, in order.
pub open spec fn entry_names(entries: IdEntries) -> Seq<Seq<char>> {
    Seq::new(entries.len(), |i: int| entries[i].0)
}

/// The entries come in ascending order of the canister names, each name
/// once, and so do the ids of each canister by their network names.
pub open spec fn entries_in_order(entries: IdEntries) -> bool {
    &&& strictly_sorted(entry_names(entries))
    &&& forall|i: int|
        0 <= i < entries.len() ==> strictly_sorted(pair_names((#[trigger] entries[i]).1))
}

/// The mathematical value of a list of network ids.
pub open spec fn pairs_view(pairs: Seq<(String, String)>) -> NetworkPairs {
    Seq::new(pairs.len(), |j: int| (pairs[j].0@, pairs[j].1@))
}

/// The mathematical value of a list of canister entries.
pub open spec fn entries_view(entries: Seq<(String, Vec<(String, String)>)>) -> IdEntries {
    Seq::new(entries.len(), |i: int| (entries[i].0@, pairs_view(entries[i].1@)))
}

/// The mathematical value of what the decoder returns.
pub open spec fn decoded_view(r: Result<Vec<(String, Vec<(String, String)>)>, String>) -> Result<
    IdEntries,
    Seq<char>,
> {
    match r {
        Ok(entries) => Ok(entries_view(entries@)),
        Err(e) => Err(e@),
    }
}

/// Reads an id file with `serde_json::from_str`, as a `BTreeMap` from `String`
/// to `BTreeMap` from `String` to `String`, and hands out its entries in the
/// order of the maps; the error is handed out as its text. Nothing is claimed
/// of the decoding beyond the name of its result.
#[verifier::external_body]
pub(crate) fn decode_id_file(text: &str) -> (r: Result<Vec<(String, Vec<(String, String)>)>, String>)
    ensures
        decoded_view(r) == decoded_id_file(text@),
{
    match serde_json::from_str::<BTreeMap<String, BTreeMap<String, String>>>(text) {
        Ok(table) => Ok(
            table.into_iter().map(|(name, ids)| (name, ids.into_iter().collect())).collect(),
        ),
        Err(e) => Err(e.to_string()),
    }
}

/// Puts the entries, which are in order, into a `BTreeMap` from `String` to
/// `BTreeMap` from `String` to `String`, and writes it with
/// `serde_json::to_string_pretty`. That function fails only where a value
/// refuses to be written, a map has a key that is no string, or the writer
/// fails; the maps here hold strings alone and the text is written to memory,
/// so it succeeds. Nothing is claimed of the text beyond its name.
#[verifier::external_body]
pub(crate) fn encode_id_file(entries: &Vec<(String, Vec<(String, String)>)>) -> (r: Result<
    String,
    String,
>)
    requires
        entries_in_order(entries_view(entries@)),
    ensures
        r is Ok,
        r->Ok_0@ == encoded_id_file(entries_view(entries@)),
{
    let table: BTreeMap<&String, BTreeMap<&String, &String>> = entries.iter().map(
        |(name, ids)| (name, ids.iter().map(|(network, id)| (network, id)).collect()),
    ).collect();
    match serde_json::to_string_pretty(&table) {
        Ok(text) => Ok(text),
        Err(e) => Err(e.to_string()),
    }
}

/// The ids of one canister as a map; of two ids for one network the later
/// counts.
pub open spec fn pairs_table(pairs: NetworkPairs) -> Map<Seq<char>, Seq<char>>
    decreases pairs.len(),
{
    if pairs.len() == 0 {
        Map::empty()
    } else {
        pairs_table(pairs.drop_last()).insert(pairs.last().0, pairs.last().1)
    }
}

/// The entries as a table; of two entries for one canister the later counts.
pub open spec fn entries_table(entries: IdEntries) -> IdTable
    decreases entries.len(),
{
    if entries.len() == 0 {
        Map::empty()
    } else {
        entries_table(entries.drop_last()).insert(entries.last().0, pairs_table(entries.last().1))
    }
}

/// The ids of one canister, network name to id.
pub open spec fn network_ids(per_network: NameMap<String>) -> Map<Seq<char>, Seq<char>> {
    per_network@.map_values(|id: String| id@)
}

/// The stored ids as a table.
pub open spec fn id_table(ids: CanisterIds) -> IdTable {
    ids@.map_values(|per_network: NameMap<String>| network_ids(per_network))
}

/// The ids of one canister as a list, in ascending order of the network names.
pub open spec fn network_pairs(per_network: NameMap<String>) -> NetworkPairs {
    Seq::new(
        per_network.keys().len(),
        |j: int| (per_network.keys()[j], per_network.values()[j]@),
    )
}

/// The stored ids as a list, in ascending order of the canister names.
pub open spec fn table_entries(ids: CanisterIds) -> IdEntries {
    Seq::new(ids.keys().len(), |i: int| (ids.keys()[i], network_pairs(ids.values()[i])))
}

/// The id that a table holds for a canister on a network.
pub open spec fn id_text(table: IdTable, name: Seq<char>, network: Seq<char>) -> Option<Seq<char>> {
    if table.contains_key(name) && table[name].contains_key(network) {
        Some(table[name][network])
    } else {
        None
    }
}

/// Builds the map of the ids of one canister from a list.
pub fn network_ids_from_pairs(pairs: &Vec<(String, String)>) -> (r: NameMap<String>)
    ensures
        r.wf(),
        network_ids(r) == pairs_table(pairs_view(pairs@)),
{
    let mut out: NameMap<String> = NameMap::new();
    let mut i: usize = 0;
    proof {
        assert(network_ids(out) =~= Map::<Seq<char>, Seq<char>>::empty());
        assert(pairs_view(pairs@).take(0) =~= Seq::<(Seq<char>, Seq<char>)>::empty());
    }
    while i < pairs.len()
        invariant
            0 <= i <= pairs.len(),
            out.wf(),
            network_ids(out) == pairs_table(pairs_view(pairs@).take(i as int)),
        decreases pairs.len() - i,
    {
        let ghost before = out;
        out.insert(pairs[i].0.clone(), pairs[i].1.clone());
        proof {
            let all = pairs_view(pairs@);
            assert(all.take(i + 1).drop_last() =~= all.take(i as int));
            assert(all.take(i + 1).last() == all[i as int]);
            assert(network_ids(out) =~= network_ids(before).insert(
                pairs[i as int].0@,
                pairs[i as int].1@,
            ));
        }
        i += 1;
    }
    proof {
        assert(pairs_view(pairs@).take(pairs.len() as int) =~= pairs_view(pairs@));
    }
    out
}

/// Builds the table of stored ids from the entries of an id file.
pub fn ids_from_entries(entries: &Vec<(String, Vec<(String, String)>)>) -> (r: CanisterIds)
    ensures
        ids_wf(r),
        id_table(r) == entries_table(entries_view(entries@)),
{
    let mut out: CanisterIds = NameMap::new();
    let mut i: usize = 0;
    proof {
        assert(id_table(out) =~= Map::<Seq<char>, Map<Seq<char>, Seq<char>>>::empty());
        assert(entries_view(entries@).take(0) =~= Seq::<(Seq<char>, NetworkPairs)>::empty());
    }
    while i < entries.len()
        invariant
            0 <= i <= entries.len(),
            ids_wf(out),
            id_table(out) == entries_table(entries_view(entries@).take(i as int)),
        decreases entries.len() - i,
    {
        let ghost before = out;
        let per_network = network_ids_from_pairs(&entries[i].1);
        out.insert(entries[i].0.clone(), per_network);
        proof {
            let all = entries_view(entries@);
            assert(all.take(i + 1).drop_last() =~= all.take(i as int));
            assert(all.take(i + 1).last() == all[i as int]);
            assert(id_table(out) =~= id_table(before).insert(
                entries[i as int].0@,
                network_ids(per_network),
            ));
        }
        i += 1;
    }
    proof {
        assert(entries_view(entries@).take(entries.len() as int) =~= entries_view(entries@));
    }
    out
}

/// The ids of one canister as a list, in ascending order of the network names.
pub fn pairs_of_network_ids(per_network: &NameMap<String>) -> (r: Vec<(String, String)>)
    ensures
        per_network.wf(),
        pairs_view(r@) == network_pairs(*per_network),
{
    let mut out: Vec<(String, String)> = Vec::new();
    let count = per_network.len();
    let mut j: usize = 0;
    while j < count
        invariant
            0 <= j <= count,
            count == per_network.keys().len(),
            per_network.wf(),
            out.len() == j,
            forall|k: int|
                0 <= k < j ==> (#[trigger] out[k]).0@ == per_network.keys()[k] && out[k].1@
                    == per_network.values()[k]@,
        decreases count - j,
    {
        out.push((per_network.key_at(j).clone(), per_network.value_at(j).clone()));
        j += 1;
    }
    proof {
        assert(pairs_view(out@) =~= network_pairs(*per_network));
    }
    out
}

/// The stored ids as a list, in ascending order of the canister names.
pub fn entries_of_ids(ids: &CanisterIds) -> (r: Vec<(String, Vec<(String, String)>)>)
    ensures
        ids_wf(*ids),
        entries_in_order(table_entries(*ids)),
        entries_view(r@) == table_entries(*ids),
{
    let mut out: Vec<(String, Vec<(String, String)>)> = Vec::new();
    let count = ids.len();
    let mut i: usize = 0;
    while i < count
        invariant
            0 <= i <= count,
            count == ids.keys().len(),
            ids.wf(),
            out.len() == i,
            forall|k: int| 0 <= k < i ==> (#[trigger] ids.values()[k]).wf(),
            forall|k: int|
                0 <= k < i ==> (#[trigger] out[k]).0@ == ids.keys()[k] && pairs_view(out[k].1@)
                    == network_pairs(ids.values()[k]),
        decreases count - i,
    {
        out.push((ids.key_at(i).clone(), pairs_of_network_ids(ids.value_at(i))));
        i += 1;
    }
    proof {
        assert(entries_view(out@) =~= table_entries(*ids));
        lemma_values_wf(*ids);
        lemma_entries_in_order(*ids);
    }
    out
}

/// The first `upto` ids of a canister, listed and put into a map again, are
/// the ids that its map holds under its first `upto` network names.
proof fn lemma_pairs_prefix(per_network: NameMap<String>, upto: int)
    requires
        per_network.wf(),
        0 <= upto <= per_network.keys().len(),
    ensures
        forall|n: Seq<char>| #[trigger]
            pairs_table(network_pairs(per_network).take(upto)).contains_key(n) <==> exists|j: int|
                0 <= j < upto && #[trigger] per_network.keys()[j] == n,
        forall|n: Seq<char>| #[trigger]
            pairs_table(network_pairs(per_network).take(upto)).contains_key(n) ==> pairs_table(
                network_pairs(per_network).take(upto),
            )[n] == network_ids(per_network)[n] && network_ids(per_network).contains_key(n),
    decreases upto,
{
    let pairs = network_pairs(per_network);
    if upto == 0 {
        assert(pairs.take(0) =~= Seq::<(Seq<char>, Seq<char>)>::empty());
    } else {
        lemma_pairs_prefix(per_network, upto - 1);
        per_network.lemma_entry(upto - 1);
        let shorter = pairs.take(upto - 1);
        let longer = pairs.take(upto);
        assert(longer.drop_last() =~= shorter);
        assert(longer.last() == pairs[upto - 1]);
        let name = per_network.keys()[upto - 1];
        assert forall|n: Seq<char>| #[trigger] pairs_table(longer).contains_key(n) <==> exists|
            j: int,
        | 0 <= j < upto && #[trigger] per_network.keys()[j] == n by {
            if pairs_table(longer).contains_key(n) {
                if n == name {
                    assert(per_network.keys()[upto - 1] == n);
                } else {
                    assert(pairs_table(shorter).contains_key(n));
                    let j = choose|j: int| 0 <= j < upto - 1 && #[trigger] per_network.keys()[j] == n;
                    assert(0 <= j < upto && per_network.keys()[j] == n);
                }
            }
            if exists|j: int| 0 <= j < upto && #[trigger] per_network.keys()[j] == n {
                let j = choose|j: int| 0 <= j < upto && #[trigger] per_network.keys()[j] == n;
                if j < upto - 1 {
                    assert(pairs_table(shorter).contains_key(n));
                }
            }
        }
        assert forall|n: Seq<char>| #[trigger] pairs_table(longer).contains_key(n) implies pairs_table(
            longer,
        )[n] == network_ids(per_network)[n] && network_ids(per_network).contains_key(n) by {
            if n != name {
                assert(pairs_table(shorter).contains_key(n));
            }
        }
    }
}

/// The ids of a canister, listed and put into a map again, are the same ids.
pub proof fn lemma_pairs_round_trip(per_network: NameMap<String>)
    requires
        per_network.wf(),
    ensures
        pairs_table(network_pairs(per_network)) == network_ids(per_network),
{
    let pairs = network_pairs(per_network);
    lemma_pairs_prefix(per_network, pairs.len() as int);
    assert(pairs.take(pairs.len() as int) =~= pairs);
    assert forall|n: Seq<char>| #[trigger]
        pairs_table(pairs).contains_key(n) <==> network_ids(per_network).contains_key(n) by {
        per_network.lemma_contains(n);
        if network_ids(per_network).contains_key(n) {
            let j = per_network.keys().index_of(n);
            assert(per_network.keys()[j] == n);
        }
    }
    assert(pairs_table(pairs) =~= network_ids(per_network));
}

/// The canisters of the table are in order, each once, and so are the ids of
/// every canister, each network once.
pub open spec fn ids_wf(ids: CanisterIds) -> bool {
    &&& ids.wf()
    &&& forall|n: Seq<char>| ids@.contains_key(n) ==> (#[trigger] ids@[n]).wf()
}

/// The first `upto` canisters of a table, listed and put into a table again,
/// are the first `upto` canisters of the table.
proof fn lemma_entries_prefix(ids: CanisterIds, upto: int)
    requires
        ids_wf(ids),
        0 <= upto <= ids.keys().len(),
    ensures
        forall|n: Seq<char>| #[trigger]
            entries_table(table_entries(ids).take(upto)).contains_key(n) <==> exists|j: int|
                0 <= j < upto && #[trigger] ids.keys()[j] == n,
        forall|n: Seq<char>| #[trigger]
            entries_table(table_entries(ids).take(upto)).contains_key(n) ==> entries_table(
                table_entries(ids).take(upto),
            )[n] == id_table(ids)[n] && id_table(ids).contains_key(n),
    decreases upto,
{
    let entries = table_entries(ids);
    if upto == 0 {
        assert(entries.take(0) =~= Seq::<(Seq<char>, NetworkPairs)>::empty());
    } else {
        lemma_entries_prefix(ids, upto - 1);
        ids.lemma_entry(upto - 1);
        assert(ids@[ids.keys()[upto - 1]].wf());
        lemma_pairs_round_trip(ids.values()[upto - 1]);
        let shorter = entries.take(upto - 1);
        let longer = entries.take(upto);
        assert(longer.drop_last() =~= shorter);
        assert(longer.last() == entries[upto - 1]);
        let name = ids.keys()[upto - 1];
        assert forall|n: Seq<char>| #[trigger] entries_table(longer).contains_key(n) <==> exists|
            j: int,
        | 0 <= j < upto && #[trigger] ids.keys()[j] == n by {
            if entries_table(longer).contains_key(n) {
                if n == name {
                    assert(ids.keys()[upto - 1] == n);
                } else {
                    assert(entries_table(shorter).contains_key(n));
                    let j = choose|j: int| 0 <= j < upto - 1 && #[trigger] ids.keys()[j] == n;
                    assert(0 <= j < upto && ids.keys()[j] == n);
                }
            }
            if exists|j: int| 0 <= j < upto && #[trigger] ids.keys()[j] == n {
                let j = choose|j: int| 0 <= j < upto && #[trigger] ids.keys()[j] == n;
                if j < upto - 1 {
                    assert(entries_table(shorter).contains_key(n));
                }
            }
        }
        assert forall|n: Seq<char>| #[trigger] entries_table(longer).contains_key(n) implies entries_table(
            longer,
        )[n] == id_table(ids)[n] && id_table(ids).contains_key(n) by {
            if n != name {
                assert(entries_table(shorter).contains_key(n));
            }
        }
    }
}

/// A table of ids, listed and put into a table again, is the same table: the
/// list that is written to the id file holds all that the table holds.
pub proof fn law_entries_hold_the_table(ids: CanisterIds)
    requires
        ids_wf(ids),
    ensures
        entries_table(table_entries(ids)) == id_table(ids),
{
    let entries = table_entries(ids);
    lemma_entries_prefix(ids, entries.len() as int);
    assert(entries.take(entries.len() as int) =~= entries);
    assert forall|n: Seq<char>| #[trigger]
        entries_table(entries).contains_key(n) <==> id_table(ids).contains_key(n) by {
        ids.lemma_contains(n);
        if id_table(ids).contains_key(n) {
            let j = ids.keys().index_of(n);
            assert(ids.keys()[j] == n);
        }
    }
    assert(entries_table(entries) =~= id_table(ids));
}

/// A table whose values are each in order is in order throughout.
proof fn lemma_values_wf(ids: CanisterIds)
    requires
        ids.wf(),
        forall|k: int| 0 <= k < ids.keys().len() ==> (#[trigger] ids.values()[k]).wf(),
    ensures
        ids_wf(ids),
{
    assert forall|n: Seq<char>| ids@.contains_key(n) implies (#[trigger] ids@[n]).wf() by {
        ids.lemma_contains(n);
        let k = ids.keys().index_of(n);
        ids.lemma_entry(k);
        assert(ids.values()[k].wf());
    }
}

/// The list of a table that is in order throughout is in order.
pub proof fn lemma_entries_in_order(ids: CanisterIds)
    requires
        ids_wf(ids),
    ensures
        entries_in_order(table_entries(ids)),
{
    let entries = table_entries(ids);
    assert(entry_names(entries) =~= ids.keys());
    assert forall|i: int| 0 <= i < entries.len() implies strictly_sorted(
        pair_names((#[trigger] entries[i]).1),
    ) by {
        ids.lemma_entry(i);
        assert(ids@[ids.keys()[i]].wf());
        assert(pair_names(entries[i].1) =~= ids.values()[i].keys());
    }
}

/// Two maps with their names in order that hold the same names hold them at
/// the same positions.
proof fn lemma_same_names<V, W>(a: NameMap<V>, b: NameMap<W>)
    requires
        a.wf(),
        b.wf(),
        a@.dom() == b@.dom(),
    ensures
        a.keys() == b.keys(),
{
    a.lemma_dom();
    b.lemma_dom();
    lemma_sorted_names_unique(a.keys(), b.keys());
}

/// Whether two canisters have the same ids on the same networks.
pub fn same_network_ids(a: &NameMap<String>, b: &NameMap<String>) -> (r: bool)
    ensures
        a.wf(),
        b.wf(),
        r == (network_ids(*a) == network_ids(*b)),
{
    let count = a.len();
    if count != b.len() {
        proof {
            if network_ids(*a) == network_ids(*b) {
                assert(a@.dom() =~= network_ids(*a).dom());
                assert(b@.dom() =~= network_ids(*b).dom());
                lemma_same_names(*a, *b);
            }
        }
        return false;
    }
    let mut j: usize = 0;
    while j < count
        invariant
            0 <= j <= count,
            count == a.keys().len(),
            count == b.keys().len(),
            a.wf(),
            b.wf(),
            forall|k: int|
                0 <= k < j ==> (#[trigger] a.keys()[k]) == b.keys()[k] && a.values()[k]@
                    == b.values()[k]@,
        decreases count - j,
    {
        let same_name = str_eq(a.key_at(j).as_str(), b.key_at(j).as_str());
        let same_id = str_eq(a.value_at(j).as_str(), b.value_at(j).as_str());
        if !same_name || !same_id {
            proof {
                if network_ids(*a) == network_ids(*b) {
                    assert(a@.dom() =~= network_ids(*a).dom());
                    assert(b@.dom() =~= network_ids(*b).dom());
                    lemma_same_names(*a, *b);
                    a.lemma_entry(j as int);
                    b.lemma_entry(j as int);
                    assert(network_ids(*a)[a.keys()[j as int]] == a.values()[j as int]@);
                    assert(network_ids(*b)[b.keys()[j as int]] == b.values()[j as int]@);
                }
            }
            return false;
        }
        j += 1;
    }
    proof {
        assert forall|n: Seq<char>| #[trigger]
            network_ids(*a).contains_key(n) <==> network_ids(*b).contains_key(n) by {
            a.lemma_contains(n);
            b.lemma_contains(n);
            if a@.contains_key(n) {
                let k = a.keys().index_of(n);
                assert(b.keys()[k] == n);
            }
            if b@.contains_key(n) {
                let k = b.keys().index_of(n);
                assert(a.keys()[k] == n);
            }
        }
        assert forall|n: Seq<char>| #[trigger] network_ids(*a).contains_key(n) implies network_ids(
            *a,
        )[n] == network_ids(*b)[n] by {
            a.lemma_contains(n);
            let k = a.keys().index_of(n);
            a.lemma_entry(k);
            b.lemma_entry(k);
        }
        assert(network_ids(*a) =~= network_ids(*b));
    }
    true
}

/// Whether two tables hold the same ids for the same canisters on the same
/// networks.
pub fn same_ids(a: &CanisterIds, b: &CanisterIds) -> (r: bool)
    ensures
        r == (id_table(*a) == id_table(*b)),
{
    let count = a.len();
    if count != b.len() {
        proof {
            if id_table(*a) == id_table(*b) {
                assert(a@.dom() =~= id_table(*a).dom());
                assert(b@.dom() =~= id_table(*b).dom());
                lemma_same_names(*a, *b);
            }
        }
        return false;
    }
    let mut i: usize = 0;
    while i < count
        invariant
            0 <= i <= count,
            count == a.keys().len(),
            count == b.keys().len(),
            a.wf(),
            b.wf(),
            forall|k: int|
                0 <= k < i ==> (#[trigger] a.keys()[k]) == b.keys()[k] && network_ids(
                    a.values()[k],
                ) == network_ids(b.values()[k]),
        decreases count - i,
    {
        let same_name = str_eq(a.key_at(i).as_str(), b.key_at(i).as_str());
        let same_networks = same_network_ids(a.value_at(i), b.value_at(i));
        if !same_name || !same_networks {
            proof {
                if id_table(*a) == id_table(*b) {
                    assert(a@.dom() =~= id_table(*a).dom());
                    assert(b@.dom() =~= id_table(*b).dom());
                    lemma_same_names(*a, *b);
                    a.lemma_entry(i as int);
                    b.lemma_entry(i as int);
                    assert(id_table(*a)[a.keys()[i as int]] == network_ids(a.values()[i as int]));
                    assert(id_table(*b)[b.keys()[i as int]] == network_ids(b.values()[i as int]));
                }
            }
            return false;
        }
        i += 1;
    }
    proof {
        assert forall|n: Seq<char>| #[trigger]
            id_table(*a).contains_key(n) <==> id_table(*b).contains_key(n) by {
            a.lemma_contains(n);
            b.lemma_contains(n);
            if a@.contains_key(n) {
                let k = a.keys().index_of(n);
                assert(b.keys()[k] == n);
            }
            if b@.contains_key(n) {
                let k = b.keys().index_of(n);
                assert(a.keys()[k] == n);
            }
        }
        assert forall|n: Seq<char>| #[trigger] id_table(*a).contains_key(n) implies id_table(*a)[n]
            == id_table(*b)[n] by {
            a.lemma_contains(n);
            let k = a.keys().index_of(n);
            a.lemma_entry(k);
            b.lemma_entry(k);
        }
        assert(id_table(*a) =~= id_table(*b));
    }
    true
}

} // verus!
