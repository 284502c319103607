//! What the traversal of the dependency graph guarantees: which canisters it
//! returns, and when and how it fails.

use crate::config::dependencies::{
    cycle_error, dependency_graph, lemma_enter_decreases, lemma_graph_finite,
    lemma_more_entered, lemma_pushed, names_with_dependencies, visit, visit_context, visit_each,
    DependencyGraph, Visit,
};
use crate::config::dfinity::ConfigCanistersCanister;
use crate::error::{DfxErrorView, ErrorCauseView};
use crate::name_map::NameMap;
use crate::text::joined;
use vstd::prelude::*;

verus! {

/// The declaration of `from` lists `to` as a dependency.
pub open spec fn depends_on(graph: DependencyGraph, from: Seq<char>, to: Seq<char>) -> bool {
    graph.contains_key(from) && graph[from] is Some && graph[from]->0.contains(to)
}

/// The canister at position `i` of `chain` depends on the next one.
pub open spec fn link(graph: DependencyGraph, chain: Seq<Seq<char>>, i: int) -> bool {
    depends_on(graph, chain[i], chain[i + 1])
}

/// A chain of dependencies: each canister depends on the one after it.
pub open spec fn is_chain(graph: DependencyGraph, chain: Seq<Seq<char>>) -> bool {
    chain.len() >= 1 && forall|i: int| 0 <= i < chain.len() - 1 ==> #[trigger] link(graph, chain, i)
}

/// `to` is `from` itself or can be reached from it along dependencies.
pub open spec fn reachable(graph: DependencyGraph, from: Seq<char>, to: Seq<char>) -> bool {
    exists|chain: Seq<Seq<char>>|
        #[trigger] is_chain(graph, chain) && chain[0] == from && chain.last() == to
}

/// A chain of at least one step that ends where it began.
pub open spec fn is_cycle(graph: DependencyGraph, chain: Seq<Seq<char>>) -> bool {
    is_chain(graph, chain) && chain.len() >= 2 && chain[0] == chain.last()
}

/// A cycle of dependencies leads through `name`.
pub open spec fn on_cycle(graph: DependencyGraph, name: Seq<char>) -> bool {
    exists|chain: Seq<Seq<char>>| #[trigger] is_cycle(graph, chain) && chain[0] == name
}

/// No canister depends on itself, directly or through others.
pub open spec fn acyclic(graph: DependencyGraph) -> bool {
    forall|chain: Seq<Seq<char>>| !#[trigger] is_cycle(graph, chain)
}

/// Every declaration has a list of dependencies of the right shape, and every
/// name in it is declared.
pub open spec fn well_declared(graph: DependencyGraph) -> bool {
    &&& forall|name: Seq<char>| #[trigger] graph.contains_key(name) ==> graph[name] is Some
    &&& forall|from: Seq<char>, to: Seq<char>| #[trigger]
        depends_on(graph, from, to) ==> graph.contains_key(to)
}

/// A chain that runs into a canister it has already passed, and the message
/// that reports it.
pub open spec fn closes_cycle(
    graph: DependencyGraph,
    stem: Seq<Seq<char>>,
    chain: Seq<Seq<char>>,
    message: Seq<char>,
) -> bool {
    &&& is_chain(graph, chain)
    &&& stem.is_prefix_of(chain)
    &&& chain.drop_last().contains(chain.last())
    &&& message == "Found circular dependency: "@ + joined(chain, " -> "@)
}

/// The visit of `name` is over: it was entered and is no longer in progress.
pub open spec fn finished(names: Seq<Seq<char>>, path: Seq<Seq<char>>, name: Seq<char>) -> bool {
    names.contains(name) && !path.contains(name)
}

/// Every dependency of `name` has been visited to the end.
pub open spec fn closed_at(
    graph: DependencyGraph,
    names: Seq<Seq<char>>,
    path: Seq<Seq<char>>,
    name: Seq<char>,
) -> bool {
    &&& graph.contains_key(name)
    &&& graph[name] is Some
    &&& forall|d: Seq<char>| #[trigger] graph[name]->0.contains(d) ==> finished(names, path, d)
}

/// `origin` holds of everything that a canister of which it holds depends on.
pub open spec fn origin_closed(graph: DependencyGraph, origin: spec_fn(Seq<char>) -> bool) -> bool {
    forall|from: Seq<char>, to: Seq<char>|
        origin(from) && #[trigger] depends_on(graph, from, to) ==> origin(to)
}

/// What the traversal keeps true between visits. The canisters in progress
/// are declared and entered, each once, and form a chain. No canister was
/// entered twice, and every canister entered satisfies `origin`. Every
/// canister whose visit is over has all its dependencies visited to the end,
/// and lies on no cycle.
pub open spec fn traversal_inv(
    graph: DependencyGraph,
    origin: spec_fn(Seq<char>) -> bool,
    names: Seq<Seq<char>>,
    path: Seq<Seq<char>>,
) -> bool {
    &&& graph.dom().finite()
    &&& path.no_duplicates()
    &&& forall|i: int|
        0 <= i < path.len() ==> names.contains(#[trigger] path[i]) && graph.contains_key(path[i])
    &&& names.no_duplicates()
    &&& forall|i: int| 0 <= i < path.len() - 1 ==> #[trigger] link(graph, path, i)
    &&& forall|n: Seq<char>| #[trigger] names.contains(n) ==> origin(n)
    &&& forall|n: Seq<char>| #[trigger]
        finished(names, path, n) ==> closed_at(graph, names, path, n) && !on_cycle(graph, n)
}

/// What a failure of the traversal shows. A report of a cycle names a chain
/// that extends `stem` and runs into itself. Where the declarations are
/// complete, a cycle is the only failure there is.
pub open spec fn failure_explained(
    graph: DependencyGraph,
    stem: Seq<Seq<char>>,
    declared: bool,
    e: DfxErrorView,
) -> bool {
    &&& e.cause matches ErrorCauseView::DependencyError(message) ==> exists|
        chain: Seq<Seq<char>>,
    | #[trigger] closes_cycle(graph, stem, chain, message)
    &&& well_declared(graph) && declared ==> e.cause is DependencyError
}

/// A chain that runs into itself holds a cycle.
pub proof fn lemma_closing_chain_has_cycle(
    graph: DependencyGraph,
    stem: Seq<Seq<char>>,
    chain: Seq<Seq<char>>,
    message: Seq<char>,
)
    requires
        closes_cycle(graph, stem, chain, message),
    ensures
        exists|cycle: Seq<Seq<char>>| #[trigger] is_cycle(graph, cycle),
        !acyclic(graph),
{
    let k = chain.drop_last().index_of(chain.last());
    assert(chain.drop_last()[k] == chain.last());
    let cycle = chain.subrange(k, chain.len() as int);
    assert forall|i: int| 0 <= i < cycle.len() - 1 implies #[trigger] link(graph, cycle, i) by {
        assert(link(graph, chain, k + i));
    }
    assert(is_cycle(graph, cycle));
}

/// Along a chain that starts at a canister whose visit is over, every visit is
/// over.
proof fn lemma_chain_stays_finished(
    graph: DependencyGraph,
    names: Seq<Seq<char>>,
    path: Seq<Seq<char>>,
    chain: Seq<Seq<char>>,
    i: int,
)
    requires
        is_chain(graph, chain),
        0 <= i < chain.len(),
        finished(names, path, chain[0]),
        forall|n: Seq<char>| #[trigger] finished(names, path, n) ==> closed_at(graph, names, path, n),
    ensures
        finished(names, path, chain[i]),
    decreases i,
{
    if i > 0 {
        lemma_chain_stays_finished(graph, names, path, chain, i - 1);
        assert(link(graph, chain, i - 1));
        assert(closed_at(graph, names, path, chain[i - 1]));
        assert(graph[chain[i - 1]]->0.contains(chain[i]));
    }
}

/// Entering a canister keeps the invariant.
proof fn lemma_inv_enter(
    graph: DependencyGraph,
    origin: spec_fn(Seq<char>) -> bool,
    names: Seq<Seq<char>>,
    path: Seq<Seq<char>>,
    name: Seq<char>,
)
    requires
        traversal_inv(graph, origin, names, path),
        !names.contains(name),
        graph.contains_key(name),
        origin(name),
        path.len() > 0 ==> depends_on(graph, path.last(), name),
    ensures
        traversal_inv(graph, origin, names.push(name), path.push(name)),
{
    let names1 = names.push(name);
    let path1 = path.push(name);
    assert forall|i: int, j: int| 0 <= i < path1.len() && 0 <= j < path1.len() && i != j implies path1[i]
        != path1[j] by {
        if i < path.len() {
            assert(names.contains(path[i]));
        }
        if j < path.len() {
            assert(names.contains(path[j]));
        }
    }
    assert forall|i: int| 0 <= i < path1.len() implies names1.contains(#[trigger] path1[i])
        && graph.contains_key(path1[i]) by {
        lemma_pushed(names, name, path1[i]);
        if i < path.len() {
            assert(names.contains(path[i]));
        }
    }
    assert(names1.no_duplicates());
    assert forall|i: int| 0 <= i < path1.len() - 1 implies #[trigger] link(graph, path1, i) by {
        if i < path.len() - 1 {
            assert(link(graph, path, i));
        }
    }
    assert forall|n: Seq<char>| #[trigger] names1.contains(n) implies origin(n) by {
        lemma_pushed(names, name, n);
        if n != name {
            assert(names.contains(n));
        }
    }
    assert forall|n: Seq<char>| #[trigger] finished(names1, path1, n) implies closed_at(
        graph,
        names1,
        path1,
        n,
    ) && !on_cycle(graph, n) by {
        lemma_pushed(names, name, n);
        lemma_pushed(path, name, n);
        assert(finished(names, path, n));
        assert(closed_at(graph, names, path, n));
        assert forall|d: Seq<char>| #[trigger] graph[n]->0.contains(d) implies finished(
            names1,
            path1,
            d,
        ) by {
            assert(finished(names, path, d));
            lemma_pushed(names, name, d);
            lemma_pushed(path, name, d);
        }
    }
}

/// What a sequence holds that another one starts.
proof fn lemma_prefix_contains(shorter: Seq<Seq<char>>, longer: Seq<Seq<char>>, n: Seq<char>)
    requires
        shorter.is_prefix_of(longer),
        shorter.contains(n),
    ensures
        longer.contains(n),
{
    let k = shorter.index_of(n);
    assert(shorter[k] == n);
    assert(longer[k] == n);
}

/// Leaving a canister whose dependencies have all been visited to the end
/// keeps the invariant, and the visit of that canister is over.
proof fn lemma_inv_leave(
    graph: DependencyGraph,
    origin: spec_fn(Seq<char>) -> bool,
    names: Seq<Seq<char>>,
    path: Seq<Seq<char>>,
    name: Seq<char>,
)
    requires
        traversal_inv(graph, origin, names, path.push(name)),
        graph.contains_key(name),
        graph[name] is Some,
        forall|d: Seq<char>| #[trigger]
            graph[name]->0.contains(d) ==> finished(names, path.push(name), d),
    ensures
        traversal_inv(graph, origin, names, path),
        finished(names, path, name),
{
    let path1 = path.push(name);
    assert(path1[path.len() as int] == name);
    assert(names.contains(name));
    assert(!path.contains(name)) by {
        if path.contains(name) {
            let k = path.index_of(name);
            assert(path[k] == name);
            assert(path1[k] == name);
        }
    }
    assert(path.no_duplicates()) by {
        assert forall|i: int, j: int| 0 <= i < path.len() && 0 <= j < path.len() && i != j implies path[i]
            != path[j] by {
            assert(path1[i] == path[i]);
            assert(path1[j] == path[j]);
        }
    }
    assert forall|i: int| 0 <= i < path.len() implies names.contains(#[trigger] path[i])
        && graph.contains_key(path[i]) by {
        assert(path1[i] == path[i]);
    }
    assert forall|i: int| 0 <= i < path.len() - 1 implies #[trigger] link(graph, path, i) by {
        assert(link(graph, path1, i));
    }
    assert forall|n: Seq<char>| #[trigger] finished(names, path, n) implies closed_at(
        graph,
        names,
        path,
        n,
    ) && !on_cycle(graph, n) by {
        lemma_pushed(path, name, n);
        if n == name {
            assert forall|d: Seq<char>| #[trigger] graph[n]->0.contains(d) implies finished(
                names,
                path,
                d,
            ) by {
                assert(finished(names, path1, d));
                lemma_pushed(path, name, d);
            }
            if on_cycle(graph, n) {
                let cycle = choose|c: Seq<Seq<char>>| #[trigger] is_cycle(graph, c) && c[0] == n;
                assert(link(graph, cycle, 0));
                assert(finished(names, path1, cycle[1]));
                let tail = cycle.subrange(1, cycle.len() as int);
                assert forall|i: int| 0 <= i < tail.len() - 1 implies #[trigger] link(
                    graph,
                    tail,
                    i,
                ) by {
                    assert(link(graph, cycle, i + 1));
                }
                lemma_chain_stays_finished(graph, names, path1, tail, tail.len() - 1);
                assert(tail[tail.len() - 1] == name);
                assert(false);
            }
        } else {
            assert(finished(names, path1, n));
            assert(closed_at(graph, names, path1, n));
            assert forall|d: Seq<char>| #[trigger] graph[n]->0.contains(d) implies finished(
                names,
                path,
                d,
            ) by {
                assert(finished(names, path1, d));
                lemma_pushed(path, name, d);
            }
        }
    }
}

/// The visit of one canister keeps the invariant, and a failure is explained.
pub proof fn lemma_visit(
    graph: DependencyGraph,
    origin: spec_fn(Seq<char>) -> bool,
    names: Seq<Seq<char>>,
    path: Seq<Seq<char>>,
    name: Seq<char>,
)
    requires
        traversal_inv(graph, origin, names, path),
        origin_closed(graph, origin),
        origin(name),
        path.len() > 0 ==> depends_on(graph, path.last(), name),
    ensures
        match visit(graph, names, path, name).failure {
            None => {
                &&& traversal_inv(graph, origin, names + visit(graph, names, path, name).entered, path)
                &&& finished(names + visit(graph, names, path, name).entered, path, name)
                &&& !names.contains(name) ==> visit(graph, names, path, name).entered.len() > 0
                    && visit(graph, names, path, name).entered[0] == name
            },
            Some(e) => failure_explained(graph, path.push(name), graph.contains_key(name), e),
        },
    decreases crate::config::dependencies::unentered(graph, names), 0int,
{
    let line = visit_context(name);
    let v = visit(graph, names, path, name);
    if names.contains(name) {
        if path.contains(name) {
            let chain = path.push(name);
            let e = cycle_error(chain).with_context(line);
            assert(v.failure == Some(e));
            assert forall|i: int| 0 <= i < chain.len() - 1 implies #[trigger] link(
                graph,
                chain,
                i,
            ) by {
                if i < path.len() - 1 {
                    assert(link(graph, path, i));
                }
            }
            assert(chain.drop_last() =~= path);
            assert(closes_cycle(graph, chain, chain, e.cause->DependencyError_0));
        } else {
            assert(names + v.entered =~= names);
        }
    } else if !graph.contains_key(name) {
    } else {
        match graph[name] {
            None => {},
            Some(dependencies) => {
                let names1 = names.push(name);
                let path1 = path.push(name);
                lemma_inv_enter(graph, origin, names, path, name);
                lemma_enter_decreases(graph, names, name);
                assert forall|i: int| 0 <= i < dependencies.len() implies origin(
                    #[trigger] dependencies[i],
                ) && depends_on(graph, name, dependencies[i]) by {
                    assert(dependencies.contains(dependencies[i]));
                    assert(depends_on(graph, name, dependencies[i]));
                }
                lemma_visit_each(graph, origin, names1, path1, dependencies, 0);
                let inner = visit_each(graph, names1, path1, dependencies, 0);
                assert(names1 + inner.entered =~= names + (seq![name] + inner.entered));
                match inner.failure {
                    None => {
                        let entered = names1 + inner.entered;
                        assert forall|d: Seq<char>| #[trigger]
                            dependencies.contains(d) implies finished(entered, path1, d) by {
                            let k = dependencies.index_of(d);
                            assert(dependencies[k] == d);
                        }
                        lemma_inv_leave(graph, origin, entered, path, name);
                    },
                    Some(e) => {
                        if well_declared(graph) {
                            assert forall|i: int| 0 <= i < dependencies.len() implies graph.contains_key(
                                #[trigger] dependencies[i],
                            ) by {
                                assert(depends_on(graph, name, dependencies[i]));
                            }
                        }
                    },
                }
            },
        }
    }
}

/// The visits of a run of canisters keep the invariant, and a failure is
/// explained.
pub proof fn lemma_visit_each(
    graph: DependencyGraph,
    origin: spec_fn(Seq<char>) -> bool,
    names: Seq<Seq<char>>,
    path: Seq<Seq<char>>,
    dependencies: Seq<Seq<char>>,
    from: int,
)
    requires
        traversal_inv(graph, origin, names, path),
        origin_closed(graph, origin),
        0 <= from <= dependencies.len(),
        forall|i: int|
            0 <= i < dependencies.len() ==> origin(#[trigger] dependencies[i]) && (path.len() > 0
                ==> depends_on(graph, path.last(), dependencies[i])),
    ensures
        match visit_each(graph, names, path, dependencies, from).failure {
            None => {
                &&& traversal_inv(
                    graph,
                    origin,
                    names + visit_each(graph, names, path, dependencies, from).entered,
                    path,
                )
                &&& forall|i: int|
                    from <= i < dependencies.len() ==> finished(
                        names + visit_each(graph, names, path, dependencies, from).entered,
                        path,
                        #[trigger] dependencies[i],
                    )
            },
            Some(e) => failure_explained(
                graph,
                path,
                forall|i: int|
                    0 <= i < dependencies.len() ==> graph.contains_key(#[trigger] dependencies[i]),
                e,
            ),
        },
    decreases crate::config::dependencies::unentered(graph, names), dependencies.len() - from + 1,
{
    let v = visit_each(graph, names, path, dependencies, from);
    if from < dependencies.len() {
        let name = dependencies[from];
        lemma_visit(graph, origin, names, path, name);
        let first = visit(graph, names, path, name);
        match first.failure {
            Some(e) => {
                if e.cause is DependencyError {
                    let message = e.cause->DependencyError_0;
                    let chain = choose|chain: Seq<Seq<char>>| #[trigger]
                        closes_cycle(graph, path.push(name), chain, message);
                    assert(path.is_prefix_of(path.push(name)));
                    assert(closes_cycle(graph, path, chain, message));
                }
            },
            None => {
                let entered = names + first.entered;
                lemma_more_entered(graph, names, first.entered);
                lemma_visit_each(graph, origin, entered, path, dependencies, from + 1);
                let rest = visit_each(graph, entered, path, dependencies, from + 1);
                assert(names + (first.entered + rest.entered) =~= entered + rest.entered);
                if rest.failure is None {
                    assert(entered.is_prefix_of(entered + rest.entered));
                    lemma_prefix_contains(entered, entered + rest.entered, name);
                }
            },
        }
    } else {
        assert(names + v.entered =~= names);
    }
}

/// Whatever is reached from `start` along dependencies was entered, once the
/// visit of `start` is over.
proof fn lemma_reachable_is_entered(
    graph: DependencyGraph,
    origin: spec_fn(Seq<char>) -> bool,
    names: Seq<Seq<char>>,
    start: Seq<char>,
    n: Seq<char>,
)
    requires
        traversal_inv(graph, origin, names, Seq::empty()),
        finished(names, Seq::empty(), start),
        reachable(graph, start, n),
    ensures
        names.contains(n),
        !on_cycle(graph, n),
{
    let chain = choose|chain: Seq<Seq<char>>| #[trigger]
        is_chain(graph, chain) && chain[0] == start && chain.last() == n;
    lemma_chain_stays_finished(graph, names, Seq::empty(), chain, chain.len() - 1);
}

/// Reachability carries over one more dependency.
proof fn lemma_reachable_step(graph: DependencyGraph, start: Seq<char>, from: Seq<char>, to: Seq<char>)
    requires
        reachable(graph, start, from),
        depends_on(graph, from, to),
    ensures
        reachable(graph, start, to),
{
    let chain = choose|chain: Seq<Seq<char>>| #[trigger]
        is_chain(graph, chain) && chain[0] == start && chain.last() == from;
    let longer = chain.push(to);
    assert forall|i: int| 0 <= i < longer.len() - 1 implies #[trigger] link(graph, longer, i) by {
        if i < chain.len() - 1 {
            assert(link(graph, chain, i));
        }
    }
    assert(is_chain(graph, longer) && longer[0] == start && longer.last() == to);
}

/// Every canister reaches itself.
proof fn lemma_reachable_self(graph: DependencyGraph, name: Seq<char>)
    ensures
        reachable(graph, name, name),
{
    let chain = seq![name];
    assert(is_chain(graph, chain) && chain[0] == name && chain.last() == name);
}

/// What is reached from a dependency of a canister is reached from the
/// canister.
proof fn lemma_reachable_through(graph: DependencyGraph, from: Seq<char>, via: Seq<char>, to: Seq<char>)
    requires
        depends_on(graph, from, via),
        reachable(graph, via, to),
    ensures
        reachable(graph, from, to),
{
    let chain = choose|chain: Seq<Seq<char>>| #[trigger]
        is_chain(graph, chain) && chain[0] == via && chain.last() == to;
    let longer = seq![from] + chain;
    assert forall|i: int| 0 <= i < longer.len() - 1 implies #[trigger] link(graph, longer, i) by {
        if i > 0 {
            assert(link(graph, chain, i - 1));
        }
    }
    assert(is_chain(graph, longer) && longer[0] == from && longer.last() == to);
}

/// The start of a traversal: nothing entered, nothing in progress.
proof fn lemma_inv_initial(graph: DependencyGraph, origin: spec_fn(Seq<char>) -> bool)
    requires
        graph.dom().finite(),
    ensures
        traversal_inv(graph, origin, Seq::empty(), Seq::empty()),
{
}

/// From any state of the traversal, whatever names were entered before and
/// whatever is in progress: a visit enters only canisters that were not
/// entered before and that are the canister visited or can be reached from
/// it, and a visit that succeeds leaves the path as it found it.
pub proof fn law_visit_enters_what_it_reaches(
    graph: DependencyGraph,
    names: Seq<Seq<char>>,
    path: Seq<Seq<char>>,
    name: Seq<char>,
)
    requires
        graph.dom().finite(),
    ensures
        visit(graph, names, path, name).failure is None ==> visit(graph, names, path, name).path
            == path,
        forall|e: Seq<char>| #[trigger]
            visit(graph, names, path, name).entered.contains(e) ==> reachable(graph, name, e)
                && !names.contains(e),
    decreases crate::config::dependencies::unentered(graph, names), 0int,
{
    let v = visit(graph, names, path, name);
    lemma_reachable_self(graph, name);
    if names.contains(name) {
        assert forall|e: Seq<char>| #[trigger] v.entered.contains(e) implies false by {
            let k = v.entered.index_of(e);
        }
    } else if !graph.contains_key(name) || graph[name] is None {
        assert forall|e: Seq<char>| #[trigger] v.entered.contains(e) implies e == name by {
            let k = v.entered.index_of(e);
            assert(v.entered[k] == e);
        }
    } else {
        let dependencies = graph[name]->0;
        let names1 = names.push(name);
        lemma_enter_decreases(graph, names, name);
        law_visits_enter_what_they_reach(graph, names1, path.push(name), dependencies, 0);
        let inner = visit_each(graph, names1, path.push(name), dependencies, 0);
        assert forall|e: Seq<char>| #[trigger] v.entered.contains(e) implies reachable(
            graph,
            name,
            e,
        ) && !names.contains(e) by {
            let k = (seq![name] + inner.entered).index_of(e);
            assert((seq![name] + inner.entered)[k] == e);
            if k > 0 {
                assert(inner.entered[k - 1] == e);
                assert(inner.entered.contains(e));
                let j = choose|j: int|
                    0 <= j < dependencies.len() && reachable(graph, #[trigger] dependencies[j], e);
                assert(dependencies.contains(dependencies[j]));
                lemma_reachable_through(graph, name, dependencies[j], e);
                lemma_pushed(names, name, e);
            }
        }
    }
}

/// From any state of the traversal: the visits of a run of canisters enter
/// only canisters that were not entered before and that are one of the run
/// or can be reached from one, and they leave the path as they found it
/// where they all succeed.
pub proof fn law_visits_enter_what_they_reach(
    graph: DependencyGraph,
    names: Seq<Seq<char>>,
    path: Seq<Seq<char>>,
    dependencies: Seq<Seq<char>>,
    from: int,
)
    requires
        graph.dom().finite(),
        0 <= from <= dependencies.len(),
    ensures
        visit_each(graph, names, path, dependencies, from).failure is None ==> visit_each(
            graph,
            names,
            path,
            dependencies,
            from,
        ).path == path,
        forall|e: Seq<char>| #[trigger]
            visit_each(graph, names, path, dependencies, from).entered.contains(e) ==> !names.contains(
                e,
            ) && exists|j: int|
                from <= j < dependencies.len() && reachable(graph, #[trigger] dependencies[j], e),
    decreases crate::config::dependencies::unentered(graph, names), dependencies.len() - from + 1,
{
    let v = visit_each(graph, names, path, dependencies, from);
    if from >= dependencies.len() {
        assert forall|e: Seq<char>| #[trigger] v.entered.contains(e) implies false by {
            let k = v.entered.index_of(e);
        }
    } else {
        let name = dependencies[from];
        law_visit_enters_what_it_reaches(graph, names, path, name);
        let first = visit(graph, names, path, name);
        if first.failure is Some {
            assert forall|e: Seq<char>| #[trigger] v.entered.contains(e) implies !names.contains(e)
                && exists|j: int|
                from <= j < dependencies.len() && reachable(graph, #[trigger] dependencies[j], e) by {
                assert(reachable(graph, dependencies[from], e));
            }
        } else {
            let entered = names + first.entered;
            lemma_more_entered(graph, names, first.entered);
            law_visits_enter_what_they_reach(graph, entered, path, dependencies, from + 1);
            let rest = visit_each(graph, entered, path, dependencies, from + 1);
            assert forall|e: Seq<char>| #[trigger] v.entered.contains(e) implies !names.contains(e)
                && exists|j: int|
                from <= j < dependencies.len() && reachable(graph, #[trigger] dependencies[j], e) by {
                let k = (first.entered + rest.entered).index_of(e);
                assert((first.entered + rest.entered)[k] == e);
                if k < first.entered.len() {
                    assert(first.entered[k] == e);
                    assert(first.entered.contains(e));
                    assert(reachable(graph, dependencies[from], e));
                } else {
                    assert(rest.entered[k - first.entered.len()] == e);
                    assert(rest.entered.contains(e));
                    let j = choose|j: int|
                        from + 1 <= j < dependencies.len() && reachable(
                            graph,
                            #[trigger] dependencies[j],
                            e,
                        );
                    assert(from <= j < dependencies.len() && reachable(graph, dependencies[j], e));
                    if names.contains(e) {
                        assert(names.is_prefix_of(entered));
                        lemma_prefix_contains(names, entered, e);
                    }
                }
            }
        }
    }
}

/// The traversal from `start`, in terms of the graph: the canisters that can
/// be reached are those of the result, and a cycle among them is the one thing
/// that makes complete declarations fail.
proof fn lemma_traversal_from(graph: DependencyGraph, start: Seq<char>)
    requires
        graph.dom().finite(),
    ensures
        match visit(graph, Seq::empty(), Seq::empty(), start).failure {
            None => {
                let names = visit(graph, Seq::empty(), Seq::empty(), start).entered;
                &&& names.no_duplicates()
                &&& names.len() > 0 && names[0] == start
                &&& forall|n: Seq<char>| names.contains(n) <==> reachable(graph, start, n)
                &&& forall|n: Seq<char>| reachable(graph, start, n) ==> !on_cycle(graph, n)
            },
            Some(e) => failure_explained(graph, seq![start], graph.contains_key(start), e),
        },
{
    let origin = |n: Seq<char>| reachable(graph, start, n);
    assert(origin_closed(graph, origin)) by {
        assert forall|from: Seq<char>, to: Seq<char>| origin(from) && #[trigger] depends_on(
            graph,
            from,
            to,
        ) implies origin(to) by {
            lemma_reachable_step(graph, start, from, to);
        }
    }
    lemma_reachable_self(graph, start);
    lemma_inv_initial(graph, origin);
    let nothing = Seq::<Seq<char>>::empty();
    lemma_visit(graph, origin, nothing, nothing, start);
    assert(nothing.push(start) =~= seq![start]);
    let v = visit(graph, nothing, nothing, start);
    assert(nothing + v.entered =~= v.entered);
    match v.failure {
        None => {
            let names = v.entered;
            assert(!nothing.contains(start)) by {
                if nothing.contains(start) {
                    let k = nothing.index_of(start);
                }
            }
            assert forall|n: Seq<char>| reachable(graph, start, n) implies names.contains(n)
                && !on_cycle(graph, n) by {
                lemma_reachable_is_entered(graph, origin, names, start, n);
            }
            assert forall|n: Seq<char>| names.contains(n) implies reachable(graph, start, n) by {
                assert(origin(n));
            }
        },
        Some(e) => {},
    }
}

/// Where no canister depends on itself, directly or through others, and every
/// dependency named is declared, the resolution for a declared canister
/// succeeds. It returns that canister, first, and every canister that can be
/// reached from it along dependencies, each once, and nothing else.
pub proof fn law_closure_of_canister(canisters: NameMap<ConfigCanistersCanister>, start: Seq<char>)
    requires
        well_declared(dependency_graph(canisters)),
        acyclic(dependency_graph(canisters)),
        canisters@.contains_key(start),
    ensures
        names_with_dependencies(Some(canisters), Some(start)) is Ok,
        names_with_dependencies(Some(canisters), Some(start))->Ok_0.no_duplicates(),
        names_with_dependencies(Some(canisters), Some(start))->Ok_0.contains(start),
        names_with_dependencies(Some(canisters), Some(start))->Ok_0[0] == start,
        forall|n: Seq<char>|
            names_with_dependencies(Some(canisters), Some(start))->Ok_0.contains(n) <==> reachable(
                dependency_graph(canisters),
                start,
                n,
            ),
{
    let graph = dependency_graph(canisters);
    lemma_graph_finite(canisters);
    lemma_traversal_from(graph, start);
    lemma_reachable_self(graph, start);
    match visit(graph, Seq::empty(), Seq::empty(), start).failure {
        None => {},
        Some(e) => {
            assert(e.cause is DependencyError);
            let message = e.cause->DependencyError_0;
            let chain = choose|chain: Seq<Seq<char>>| #[trigger]
                closes_cycle(graph, seq![start], chain, message);
            lemma_closing_chain_has_cycle(graph, seq![start], chain, message);
        },
    }
}

/// Where no canister depends on itself, directly or through others, and every
/// dependency named is declared, the resolution for all canisters succeeds and
/// returns every declared canister, each once, and nothing else.
pub proof fn law_closure_of_all(canisters: NameMap<ConfigCanistersCanister>)
    requires
        well_declared(dependency_graph(canisters)),
        acyclic(dependency_graph(canisters)),
    ensures
        names_with_dependencies(Some(canisters), None) is Ok,
        names_with_dependencies(Some(canisters), None)->Ok_0.no_duplicates(),
        forall|n: Seq<char>|
            names_with_dependencies(Some(canisters), None)->Ok_0.contains(n)
                <==> canisters@.contains_key(n),
{
    let graph = dependency_graph(canisters);
    let order = canisters.keys();
    lemma_graph_finite(canisters);
    let origin = |n: Seq<char>| graph.contains_key(n);
    assert(origin_closed(graph, origin));
    lemma_inv_initial(graph, origin);
    let nothing = Seq::<Seq<char>>::empty();
    assert forall|i: int| 0 <= i < order.len() implies origin(#[trigger] order[i]) by {
        assert(order.contains(order[i]));
        canisters.lemma_contains(order[i]);
    }
    lemma_visit_each(graph, origin, nothing, nothing, order, 0);
    let v = visit_each(graph, nothing, nothing, order, 0);
    assert(nothing + v.entered =~= v.entered);
    match v.failure {
        None => {
            let names = v.entered;
            assert forall|n: Seq<char>| canisters@.contains_key(n) implies names.contains(n) by {
                canisters.lemma_contains(n);
                let k = order.index_of(n);
                assert(finished(names, nothing, order[k]));
            }
            assert forall|n: Seq<char>| names.contains(n) implies canisters@.contains_key(n) by {
                assert(origin(n));
            }
        },
        Some(e) => {
            assert forall|i: int| 0 <= i < order.len() implies graph.contains_key(
                #[trigger] order[i],
            ) by {
                assert(origin(order[i]));
            }
            assert(e.cause is DependencyError);
            let message = e.cause->DependencyError_0;
            let chain = choose|chain: Seq<Seq<char>>| #[trigger]
                closes_cycle(graph, nothing, chain, message);
            lemma_closing_chain_has_cycle(graph, nothing, chain, message);
        },
    }
}

/// Where every dependency named is declared and a cycle of dependencies can
/// be reached from a declared canister, the resolution for that canister fails
/// and reports the circular dependency.
pub proof fn law_cycle_is_reported(
    canisters: NameMap<ConfigCanistersCanister>,
    start: Seq<char>,
    cycle: Seq<Seq<char>>,
)
    requires
        well_declared(dependency_graph(canisters)),
        canisters@.contains_key(start),
        is_cycle(dependency_graph(canisters), cycle),
        reachable(dependency_graph(canisters), start, cycle[0]),
    ensures
        names_with_dependencies(Some(canisters), Some(start)) is Err,
        names_with_dependencies(Some(canisters), Some(start))->Err_0.cause is DependencyError,
{
    let graph = dependency_graph(canisters);
    lemma_graph_finite(canisters);
    lemma_traversal_from(graph, start);
    match visit(graph, Seq::empty(), Seq::empty(), start).failure {
        None => {
            assert(on_cycle(graph, cycle[0]));
        },
        Some(e) => {},
    }
}

/// A report of a circular dependency names a chain of dependencies that
/// begins at the canister asked for and ends at a canister that it has
/// already passed: the message lists the chain, with ` -> ` between the names.
pub proof fn law_cycle_report_names_chain(
    canisters: NameMap<ConfigCanistersCanister>,
    start: Seq<char>,
)
    requires
        names_with_dependencies(Some(canisters), Some(start)) is Err,
        names_with_dependencies(Some(canisters), Some(start))->Err_0.cause is DependencyError,
    ensures
        exists|chain: Seq<Seq<char>>| #[trigger]
            closes_cycle(
                dependency_graph(canisters),
                seq![start],
                chain,
                names_with_dependencies(
                    Some(canisters),
                    Some(start),
                )->Err_0.cause->DependencyError_0,
            ),
{
    let graph = dependency_graph(canisters);
    lemma_graph_finite(canisters);
    lemma_traversal_from(graph, start);
}

} // verus!
