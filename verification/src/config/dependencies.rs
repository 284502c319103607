//! Which canisters a build has to cover: a canister and everything it depends
//! on, directly or through other canisters.

use crate::config::dfinity::{ConfigCanistersCanister, ConfigInterface};
use crate::error::{in_context, DfxError, DfxErrorView, ErrorCause, ErrorCauseView};
use crate::name_map::NameMap;
use crate::text::{contains_text, join, joined, views};
use vstd::prelude::*;
use vstd::string::StringExecFns;

verus! {

/// The dependencies that each declared canister names; `None` for a canister
/// whose list of dependencies does not have the shape of one.
pub type DependencyGraph = Map<Seq<char>, Option<Seq<Seq<char>>>>;

/// The canister names that a declaration lists under `dependencies`: none
/// where the field is absent, `None` where it is no list of strings.
pub open spec fn declared_dependencies(canister: ConfigCanistersCanister) -> Option<
    Seq<Seq<char>>,
> {
    match canister.extras.spec_get("dependencies"@) {
        None => Some(Seq::empty()),
        Some(value) => value.spec_as_text_list(),
    }
}

/// The dependency graph that the declared canisters form.
pub open spec fn dependency_graph(canisters: NameMap<ConfigCanistersCanister>) -> DependencyGraph {
    Map::new(
        |name: Seq<char>| canisters@.contains_key(name),
        |name: Seq<char>| declared_dependencies(canisters@[name]),
    )
}

/// The failure for a chain of dependencies that leads back into itself.
pub open spec fn cycle_error(path: Seq<Seq<char>>) -> DfxErrorView {
    DfxErrorView::new(
        ErrorCauseView::DependencyError("Found circular dependency: "@ + joined(path, " -> "@)),
    )
}

/// The failure for a name that no declaration carries.
pub open spec fn missing_canister_error(name: Seq<char>) -> DfxErrorView {
    DfxErrorView::new(ErrorCauseView::NotFoundError("Cannot find canister '"@ + name + "'."@))
}

/// The failure for a `dependencies` field that is no list of strings.
pub open spec fn malformed_dependencies_error() -> DfxErrorView {
    DfxErrorView::new(ErrorCauseView::ConfigError("Field 'dependencies' is of the wrong type"@))
}

/// The failure for a manifest without a canisters section.
pub open spec fn no_canisters_error() -> DfxErrorView {
    DfxErrorView::new(ErrorCauseView::ConfigError("No canisters in the configuration file."@))
}

/// The line that describes the visit of one canister.
pub open spec fn visit_context(name: Seq<char>) -> Seq<char> {
    "Failed to add dependencies for canister '"@ + name + "'."@
}

/// The line that describes the whole resolution.
pub open spec fn closure_context(start: Option<Seq<char>>) -> Seq<char> {
    "Failed to get canisters with their dependencies (for "@ + (match start {
        Some(name) => name,
        None => "all canisters"@,
    }) + ")."@
}

/// What a visit leaves behind.
pub struct Visit {
    /// The canisters that the visit entered, in the order in which it met
    /// them.
    pub entered: Seq<Seq<char>>,
    /// The canisters whose visit is in progress, as the visit leaves them.
    pub path: Seq<Seq<char>>,
    /// The failure that ended the visit, if one did.
    pub failure: Option<DfxErrorView>,
}

/// The number of declared canisters that have not been entered.
pub open spec fn unentered(graph: DependencyGraph, names: Seq<Seq<char>>) -> nat {
    graph.dom().difference(names.to_set()).len()
}

/// Entering a declared canister leaves fewer canisters to enter.
pub proof fn lemma_enter_decreases(graph: DependencyGraph, names: Seq<Seq<char>>, name: Seq<char>)
    requires
        graph.dom().finite(),
        graph.contains_key(name),
        !names.contains(name),
    ensures
        unentered(graph, names.push(name)) < unentered(graph, names),
{
    let before = graph.dom().difference(names.to_set());
    let after = graph.dom().difference(names.push(name).to_set());
    assert(before.contains(name));
    assert(after =~= before.remove(name)) by {
        assert forall|n: Seq<char>| after.contains(n) <==> before.remove(name).contains(n) by {
            lemma_pushed(names, name, n);
        }
    }
}

/// Entering more canisters leaves no more canisters to enter.
pub proof fn lemma_more_entered(
    graph: DependencyGraph,
    names: Seq<Seq<char>>,
    entered: Seq<Seq<char>>,
)
    requires
        graph.dom().finite(),
    ensures
        unentered(graph, names + entered) <= unentered(graph, names),
{
    let before = graph.dom().difference(names.to_set());
    let after = graph.dom().difference((names + entered).to_set());
    assert(after.subset_of(before)) by {
        assert forall|n: Seq<char>| after.contains(n) implies before.contains(n) by {
            if names.contains(n) {
                let k = names.index_of(n);
                assert(names[k] == n);
                assert((names + entered)[k] == n);
            }
        }
    }
    vstd::set_lib::lemma_len_subset(after, before);
}

/// What a sequence holds after one more item.
pub proof fn lemma_pushed(items: Seq<Seq<char>>, last: Seq<char>, n: Seq<char>)
    ensures
        items.push(last).contains(n) <==> items.contains(n) || n == last,
{
    let longer = items.push(last);
    if longer.contains(n) {
        let k = longer.index_of(n);
        assert(longer[k] == n);
        if k < items.len() {
            assert(items[k] == n);
        }
    }
    if items.contains(n) {
        let k = items.index_of(n);
        assert(items[k] == n);
        assert(longer[k] == n);
    }
    if n == last {
        assert(longer[items.len() as int] == n);
    }
}

/// The depth-first visit of the canister `name`. `names` holds the canisters
/// entered so far, and `path` those whose visit is in progress, outermost
/// first.
///
/// A canister that was entered before is not entered again; if its visit is
/// still in progress the dependencies form a cycle, and the visit fails with
/// the path that closes it. A new canister is entered; it has to be declared,
/// with a list of dependencies of the right shape. Then each of its
/// dependencies is visited in the order of the declaration, until one fails.
/// A visit that succeeds leaves the path as it found it.
pub open spec fn visit(
    graph: DependencyGraph,
    names: Seq<Seq<char>>,
    path: Seq<Seq<char>>,
    name: Seq<char>,
) -> Visit
    decreases unentered(graph, names), 0int,
    when graph.dom().finite()
{
    if names.contains(name) {
        if path.contains(name) {
            Visit {
                entered: Seq::empty(),
                path: path.push(name),
                failure: Some(cycle_error(path.push(name)).with_context(visit_context(name))),
            }
        } else {
            Visit { entered: Seq::empty(), path, failure: None }
        }
    } else if !graph.contains_key(name) {
        Visit {
            entered: seq![name],
            path,
            failure: Some(missing_canister_error(name).with_context(visit_context(name))),
        }
    } else {
        match graph[name] {
            None => Visit {
                entered: seq![name],
                path,
                failure: Some(malformed_dependencies_error().with_context(visit_context(name))),
            },
            Some(dependencies) => {
                proof {
                    lemma_enter_decreases(graph, names, name);
                }
                let inner = visit_each(graph, names.push(name), path.push(name), dependencies, 0);
                match inner.failure {
                    Some(e) => Visit {
                        entered: seq![name] + inner.entered,
                        path: inner.path,
                        failure: Some(e.with_context(visit_context(name))),
                    },
                    None => Visit { entered: seq![name] + inner.entered, path, failure: None },
                }
            },
        }
    }
}

/// The visits of `dependencies[from..]`, one after the other, until one fails.
pub open spec fn visit_each(
    graph: DependencyGraph,
    names: Seq<Seq<char>>,
    path: Seq<Seq<char>>,
    dependencies: Seq<Seq<char>>,
    from: int,
) -> Visit
    decreases unentered(graph, names), dependencies.len() - from + 1,
    when graph.dom().finite() && 0 <= from <= dependencies.len()
{
    if from >= dependencies.len() {
        Visit { entered: Seq::empty(), path, failure: None }
    } else {
        let first = visit(graph, names, path, dependencies[from]);
        if first.failure is Some {
            first
        } else {
            proof {
                lemma_more_entered(graph, names, first.entered);
            }
            let rest = visit_each(graph, names + first.entered, path, dependencies, from + 1);
            Visit {
                entered: first.entered + rest.entered,
                path: rest.path,
                failure: rest.failure,
            }
        }
    }
}

/// What a traversal from nothing returns: the canisters it entered, or its
/// failure, seen from the whole resolution.
pub open spec fn closure_outcome(visit: Visit, start: Option<Seq<char>>) -> Result<
    Seq<Seq<char>>,
    DfxErrorView,
> {
    match visit.failure {
        Some(e) => Err(e.with_context(closure_context(start))),
        None => Ok(visit.entered),
    }
}

/// The canisters to build, in the order in which a depth-first traversal
/// first meets them: the traversal starts at `start`, or, where none is
/// given, at each canister of `order` in turn.
pub open spec fn canister_closure(
    graph: DependencyGraph,
    order: Seq<Seq<char>>,
    start: Option<Seq<char>>,
) -> Result<Seq<Seq<char>>, DfxErrorView> {
    closure_outcome(
        match start {
            Some(name) => visit(graph, Seq::empty(), Seq::empty(), name),
            None => visit_each(graph, Seq::empty(), Seq::empty(), order, 0),
        },
        start,
    )
}

/// What `get_canister_names_with_dependencies` returns for a manifest with
/// these canisters.
pub open spec fn names_with_dependencies(
    canisters: Option<NameMap<ConfigCanistersCanister>>,
    start: Option<Seq<char>>,
) -> Result<Seq<Seq<char>>, DfxErrorView> {
    match canisters {
        None => in_context(Err(no_canisters_error()), closure_context(start)),
        Some(declared) => canister_closure(dependency_graph(declared), declared.keys(), start),
    }
}

/// The dependency graph of a map of canisters has finitely many nodes.
pub proof fn lemma_graph_finite(canisters: NameMap<ConfigCanistersCanister>)
    ensures
        dependency_graph(canisters).dom().finite(),
        dependency_graph(canisters).dom() == canisters@.dom(),
{
    canisters.lemma_dom();
    assert(dependency_graph(canisters).dom() =~= canisters@.dom());
}

/// The line that describes the visit of `name`.
fn make_visit_context(name: &str) -> (r: String)
    ensures
        r@ == visit_context(name@),
{
    let mut line = String::from_str("Failed to add dependencies for canister '");
    line.append(name);
    line.append("'.");
    line
}

/// The line that describes the whole resolution.
fn make_closure_context(start: Option<&str>) -> (r: String)
    ensures
        r@ == closure_context(
            match start {
                Some(s) => Some(s@),
                None => None,
            },
        ),
{
    let mut line = String::from_str("Failed to get canisters with their dependencies (for ");
    match start {
        Some(name) => line.append(name),
        None => line.append("all canisters"),
    }
    line.append(").");
    line
}

/// What a call leaves in `names` and `path` and returns, given what the
/// traversal it stands for leaves behind.
pub open spec fn left_behind(
    visit: Visit,
    names_before: Seq<Seq<char>>,
    path_before: Seq<Seq<char>>,
    names_after: Seq<Seq<char>>,
    path_after: Seq<Seq<char>>,
    r: Result<(), DfxError>,
) -> bool {
    &&& names_after == names_before + visit.entered
    &&& path_after == visit.path
    &&& match r {
        Ok(()) => visit.failure is None && path_after == path_before,
        Err(e) => visit.failure == Some(e@),
    }
}

/// Visits the canister `canister_name`: enters it and everything it depends
/// on into `names`, unless it was entered before. `path` holds the canisters
/// whose visit is in progress; it is the same after a visit that succeeds.
/// After a failure `names` holds what was entered until then, and `path` the
/// canisters whose visit was in progress when it happened.
fn add_dependencies(
    all_canisters: &NameMap<ConfigCanistersCanister>,
    names: &mut Vec<String>,
    path: &mut Vec<String>,
    canister_name: &str,
) -> (r: Result<(), DfxError>)
    ensures
        left_behind(
            visit(
                dependency_graph(*all_canisters),
                views(old(names)@),
                views(old(path)@),
                canister_name@,
            ),
            views(old(names)@),
            views(old(path)@),
            views(final(names)@),
            views(final(path)@),
            r,
        ),
    decreases unentered(dependency_graph(*all_canisters), views(old(names)@)), 0int,
{
    let ghost graph = dependency_graph(*all_canisters);
    let ghost names0 = views(names@);
    let ghost path0 = views(path@);
    let ghost name = canister_name@;
    proof {
        lemma_graph_finite(*all_canisters);
        assert(names0 + Seq::<Seq<char>>::empty() =~= names0);
    }
    if contains_text(names, canister_name) {
        if contains_text(path, canister_name) {
            path.push(canister_name.to_owned());
            proof {
                assert(views(path@) =~= path0.push(name));
            }
            let mut message = String::from_str("Found circular dependency: ");
            message.append(join(path, " -> ").as_str());
            return Err(
                DfxError::new(ErrorCause::DependencyError(message)).with_context(
                    make_visit_context(canister_name),
                ),
            );
        } else {
            return Ok(());
        }
    }
    names.push(canister_name.to_owned());
    proof {
        assert(views(names@) =~= names0.push(name));
        assert(names0.push(name) =~= names0 + seq![name]);
    }
    let canister_config = match all_canisters.get(canister_name) {
        Some(config) => config,
        None => {
            let mut message = String::from_str("Cannot find canister '");
            message.append(canister_name);
            message.append("'.");
            return Err(
                DfxError::new(ErrorCause::NotFoundError(message)).with_context(
                    make_visit_context(canister_name),
                ),
            );
        },
    };
    proof {
        assert(graph.contains_key(name));
        assert(graph[name] == declared_dependencies(*canister_config));
    }
    let deps: Vec<String> = match canister_config.extras.get("dependencies") {
        None => Vec::new(),
        Some(value) => match value.as_text_list() {
            Some(list) => list,
            None => {
                return Err(
                    DfxError::new(
                        ErrorCause::ConfigError(
                            String::from_str("Field 'dependencies' is of the wrong type"),
                        ),
                    ).with_context(make_visit_context(canister_name)),
                );
            },
        },
    };
    proof {
        assert(views(deps@) =~= graph[name]->0);
    }
    path.push(canister_name.to_owned());
    let ghost names1 = names0.push(name);
    let ghost path1 = path0.push(name);
    let ghost inner = visit_each(graph, names1, path1, views(deps@), 0);
    proof {
        assert(views(path@) =~= path1);
        lemma_enter_decreases(graph, names0, name);
    }
    match add_each(all_canisters, names, path, &deps) {
        Err(e) => {
            proof {
                assert(names1 + inner.entered =~= names0 + (seq![name] + inner.entered));
            }
            return Err(e.with_context(make_visit_context(canister_name)));
        },
        Ok(()) => {},
    }
    path.pop();
    proof {
        assert(path1.drop_last() =~= path0);
        assert(views(path@) =~= path1.drop_last());
        assert(names1 + inner.entered =~= names0 + (seq![name] + inner.entered));
    }
    Ok(())
}

/// Visits the canisters of `list`, one after the other, until a visit fails.
fn add_each(
    all_canisters: &NameMap<ConfigCanistersCanister>,
    names: &mut Vec<String>,
    path: &mut Vec<String>,
    list: &Vec<String>,
) -> (r: Result<(), DfxError>)
    ensures
        left_behind(
            visit_each(
                dependency_graph(*all_canisters),
                views(old(names)@),
                views(old(path)@),
                views(list@),
                0,
            ),
            views(old(names)@),
            views(old(path)@),
            views(final(names)@),
            views(final(path)@),
            r,
        ),
    decreases unentered(dependency_graph(*all_canisters), views(old(names)@)), 1int,
{
    let ghost graph = dependency_graph(*all_canisters);
    let ghost names0 = views(names@);
    let ghost path0 = views(path@);
    let ghost dependencies = views(list@);
    let ghost whole = visit_each(graph, names0, path0, dependencies, 0);
    let ghost mut done: Seq<Seq<char>> = Seq::empty();
    proof {
        lemma_graph_finite(*all_canisters);
        assert(names0 + done =~= names0);
        let now = visit_each(graph, names0 + done, path0, dependencies, 0);
        assert(done + now.entered =~= now.entered);
    }
    let mut i: usize = 0;
    while i < list.len()
        invariant
            0 <= i <= list.len(),
            graph == dependency_graph(*all_canisters),
            graph.dom().finite(),
            dependencies == views(list@),
            names0 == views(old(names)@),
            path0 == views(old(path)@),
            views(names@) == names0 + done,
            views(path@) == path0,
            whole == visit_each(graph, names0, path0, dependencies, 0),
            whole.entered == done + visit_each(
                graph,
                names0 + done,
                path0,
                dependencies,
                i as int,
            ).entered,
            whole.path == visit_each(graph, names0 + done, path0, dependencies, i as int).path,
            whole.failure == visit_each(
                graph,
                names0 + done,
                path0,
                dependencies,
                i as int,
            ).failure,
        decreases list.len() - i,
    {
        let ghost now = visit_each(graph, names0 + done, path0, dependencies, i as int);
        let ghost first = visit(graph, names0 + done, path0, dependencies[i as int]);
        proof {
            lemma_more_entered(graph, names0, done);
        }
        match add_dependencies(all_canisters, names, path, list[i].as_str()) {
            Err(e) => {
                proof {
                    assert(now == first);
                    assert(names0 + done + first.entered =~= names0 + (done + first.entered));
                }
                return Err(e);
            },
            Ok(()) => {},
        }
        proof {
            let rest = visit_each(
                graph,
                names0 + done + first.entered,
                path0,
                dependencies,
                i as int + 1,
            );
            assert(now.entered == first.entered + rest.entered);
            assert(done + (first.entered + rest.entered) =~= (done + first.entered) + rest.entered);
            assert(names0 + done + first.entered =~= names0 + (done + first.entered));
            done = done + first.entered;
        }
        i += 1;
    }
    proof {
        let now = visit_each(graph, names0 + done, path0, dependencies, i as int);
        assert(done + now.entered =~= done);
    }
    Ok(())
}

/// The names of the canisters, in the order of the map.
fn names_in_order(canisters: &NameMap<ConfigCanistersCanister>) -> (r: Vec<String>)
    ensures
        views(r@) == canisters.keys(),
{
    let mut out: Vec<String> = Vec::new();
    let count = canisters.len();
    let mut i: usize = 0;
    while i < count
        invariant
            0 <= i <= count,
            count == canisters.keys().len(),
            out.len() == i,
            forall|k: int| 0 <= k < i ==> (#[trigger] out[k])@ == canisters.keys()[k],
        decreases count - i,
    {
        out.push(canisters.key_at(i).clone());
        i += 1;
    }
    proof {
        assert(views(out@) =~= canisters.keys());
    }
    out
}

impl ConfigInterface {
    /// The names of the given canister and of everything it depends on; where
    /// none is given, of every declared canister and what those depend on.
    /// The names come in the order in which a depth-first traversal first
    /// meets them, each once.
    pub fn get_canister_names_with_dependencies(&self, some_canister: Option<&str>) -> (r: Result<
        Vec<String>,
        DfxError,
    >)
        ensures
            match r {
                Ok(names) => names_with_dependencies(
                    self.canisters,
                    match some_canister {
                        Some(s) => Some(s@),
                        None => None,
                    },
                ) == Ok::<Seq<Seq<char>>, DfxErrorView>(views(names@)),
                Err(e) => names_with_dependencies(
                    self.canisters,
                    match some_canister {
                        Some(s) => Some(s@),
                        None => None,
                    },
                ) == Err::<Seq<Seq<char>>, DfxErrorView>(e@),
            },
    {
        let canister_map = match &self.canisters {
            Some(map) => map,
            None => {
                return Err(
                    DfxError::new(
                        ErrorCause::ConfigError(
                            String::from_str("No canisters in the configuration file."),
                        ),
                    ).with_context(make_closure_context(some_canister)),
                );
            },
        };
        let mut names: Vec<String> = Vec::new();
        let mut path: Vec<String> = Vec::new();
        proof {
            assert(views(names@) =~= Seq::<Seq<char>>::empty());
            assert(views(path@) =~= Seq::<Seq<char>>::empty());
        }
        let visited = match some_canister {
            Some(specific_canister) => add_dependencies(
                canister_map,
                &mut names,
                &mut path,
                specific_canister,
            ),
            None => {
                let all = names_in_order(canister_map);
                add_each(canister_map, &mut names, &mut path, &all)
            },
        };
        match visited {
            Err(e) => Err(e.with_context(make_closure_context(some_canister))),
            Ok(()) => {
                proof {
                    let nothing = Seq::<Seq<char>>::empty();
                    assert(forall|entered: Seq<Seq<char>>| nothing + entered =~= entered);
                }
                Ok(names)
            },
        }
    }
}

} // verus!
