//! The dependency resolver and execution planner: builds a
//! deduplicated, cycle-checked, dependency-ordered sequence of
//! (recipe, bound scope) entries from the requested invocations, by a
//! depth-first traversal carrying the path of recipe names. Dependency
//! argument expressions are evaluated in the caller's scope before the
//! dependency's own parameters are bound.

use vstd::prelude::*;
use crate::binder::{arity_ok, bind, bound_props, failure_fields_ok, BindOutcome};
use crate::error::RunError;
use crate::eval::{err_matches, eval_spec, evaluate, BacktickOutcome, EvalStep, GErr, GEval};
use crate::expr::Expression;
use crate::recipe::{Recipe, Table};
use crate::scope::{Binding, Scope};
use crate::suggest::{suggest, suggestion_for};

verus! {

/// One planned invocation: the recipe, the caller-supplied (or
/// dependency-evaluated) positional arguments, and the scope its
/// parameters were bound into.
#[derive(Debug, PartialEq, Eq)]
pub struct PlanEntry {
    pub index: usize,
    pub name: String,
    pub arguments: Vec<String>,
    pub scope: Scope,
}

/// One requested invocation: a recipe name plus positional arguments.
#[derive(Debug, PartialEq, Eq)]
pub struct Request {
    pub name: String,
    pub arguments: Vec<String>,
}

/// The result of one planning attempt.
#[derive(Debug, PartialEq, Eq)]
pub enum PlanStep {
    /// The finished, dependency-ordered plan.
    PDone { plan: Vec<PlanEntry>, used: usize },
    /// A backtick must be run before planning can continue.
    PNeed { command: String, used: usize },
    /// Planning failed.
    PFail { error: RunError },
}

/// Whether two argument lists carry the same texts.
pub open spec fn key_eq(a: Seq<String>, b: Seq<String>) -> bool {
    a.len() == b.len() && forall|i: int| 0 <= i < a.len() ==> a[i]@ == #[trigger] b[i]@
}

/// Every entry names the recipe at its index.
pub open spec fn entries_ok(table: Table, plan: Seq<PlanEntry>) -> bool {
    forall|i: int|
        0 <= i < plan.len() ==> (#[trigger] plan[i]).index < table.recipes@.len()
            && table.recipes@[plan[i].index as int].name@ == plan[i].name@
}

/// No two entries share a recipe and argument texts: each distinct
/// (recipe, resolved arguments) pair appears at most once.
pub open spec fn no_dup(plan: Seq<PlanEntry>) -> bool {
    forall|i: int, j: int|
        0 <= i < j < plan.len() ==> !(plan[i].name@ == plan[j].name@ && key_eq(
            plan[i].arguments@,
            plan[j].arguments@,
        ))
}

/// Some entry strictly before position `i` carries `name`.
pub open spec fn name_before(plan: Seq<PlanEntry>, i: int, name: Seq<char>) -> bool {
    exists|j: int| 0 <= j < i && (#[trigger] plan[j]).name@ == name
}

/// Every dependency of the recipe of entry `i` appears strictly before
/// it.
pub open spec fn entry_deps_before(table: Table, plan: Seq<PlanEntry>, i: int) -> bool {
    forall|d: int|
        0 <= d < table.recipes@[plan[i].index as int].dependencies@.len() ==> name_before(
            plan,
            i,
            (#[trigger] table.recipes@[plan[i].index as int].dependencies@[d]).recipe@,
        )
}

/// Every dependency of an entry's recipe appears strictly earlier in
/// the plan.
pub open spec fn deps_before(table: Table, plan: Seq<PlanEntry>) -> bool {
    forall|i: int| 0 <= i < plan.len() ==> #[trigger] entry_deps_before(table, plan, i)
}

/// A name is absent from the plan segment starting at `from`.
pub open spec fn name_absent_from(plan: Seq<PlanEntry>, from: int, name: Seq<char>) -> bool {
    forall|k: int| from <= k < plan.len() ==> (#[trigger] plan[k]).name@ != name
}

/// The entry's scope is what binding its arguments over the global
/// scope yields: some view-equal copy of the globals, extended by one
/// layer exactly as the binder promises.
pub open spec fn entry_bound(
    table: Table,
    e: PlanEntry,
    globals: Scope,
    env: Seq<Binding>,
    log: Seq<BacktickOutcome>,
) -> bool {
    exists|g: Scope, u0: int, u1: int|
        {
            &&& g.layers@.len() == globals.layers@.len()
            &&& forall|i: int|
                0 <= i < g.layers@.len() ==> (#[trigger] g.layers@[i])@ == globals.layers@[i]@
            &&& 0 <= u0
            &&& #[trigger] bound_props(
                table.recipes@[e.index as int],
                e.arguments@,
                g,
                env,
                log,
                u0,
                e.scope,
                u1,
            )
        }
}


/// An edge of the dependency graph: some recipe named `from` declares
/// a dependency on the recipe named `to`.
pub open spec fn dep_edge(table: Table, from: Seq<char>, to: Seq<char>) -> bool {
    exists|i: int, d: int|
        0 <= i < table.recipes@.len() && 0 <= d < table.recipes@[i].dependencies@.len()
            && table.recipes@[i].name@ == from
            && (#[trigger] table.recipes@[i].dependencies@[d]).recipe@ == to
}

/// Consecutive names form dependency edges of the table.
pub open spec fn dep_chain(table: Table, names: Seq<String>) -> bool {
    forall|k: int|
        0 <= k < names.len() - 1 ==> dep_edge(table, (#[trigger] names[k])@, names[k + 1]@)
}

/// An expression the table itself holds: a dependency argument or a
/// parameter default.
pub open spec fn table_expr(table: Table, e: Expression) -> bool {
    ||| exists|i: int, dd: int, a: int|
        0 <= i < table.recipes@.len() && 0 <= dd < table.recipes@[i].dependencies@.len() && 0 <= a
            < table.recipes@[i].dependencies@[dd].arguments@.len()
            && #[trigger] table.recipes@[i].dependencies@[dd].arguments@[a] == e
    ||| exists|i: int, pp: int|
        0 <= i < table.recipes@.len() && 0 <= pp < table.recipes@[i].parameters@.len() && (
        #[trigger] table.recipes@[i].parameters@[pp]).default == Option::Some(e)
}

/// The failure is what evaluating one of the table's own expressions
/// yields in some scope under the log.
pub open spec fn eval_failure_from_table(
    table: Table,
    env: Seq<Binding>,
    log: Seq<BacktickOutcome>,
    error: RunError,
) -> bool {
    exists|ge: GErr, e: Expression, sc: Scope, u0: int|
        #![trigger err_matches(error, ge), eval_spec(e, sc, env, log, u0)]
        table_expr(table, e) && err_matches(error, ge) && 0 <= u0 && eval_spec(
            e,
            sc,
            env,
            log,
            u0,
        ) == (GEval::Fail { error: ge })
}

/// The command is what evaluating one of the table's own expressions
/// asks to run once the log runs out.
pub open spec fn pending_from_table(
    table: Table,
    env: Seq<Binding>,
    log: Seq<BacktickOutcome>,
    command: Seq<char>,
    u: int,
) -> bool {
    exists|e: Expression, sc: Scope, u0: int|
        table_expr(table, e) && 0 <= u0 && #[trigger] eval_spec(e, sc, env, log, u0) == (
        GEval::Need { command, used: u })
}

/// An arity failure raised while binding a dependency: the argument
/// count is that dependency's own expression count, and the fields are
/// the target recipe's.
pub open spec fn dep_arity_failure(
    table: Table,
    env: Seq<Binding>,
    log: Seq<BacktickOutcome>,
    error: RunError,
) -> bool {
    exists|i: int, dd: int, j: int, g: Scope, lo: int|
        0 <= i < table.recipes@.len() && 0 <= dd < table.recipes@[i].dependencies@.len() && 0 <= j
            < table.recipes@.len() && table.recipes@[j].name@ == table.recipes@[i].dependencies@[
            dd].recipe@ && !arity_ok(
            table.recipes@[j],
            table.recipes@[i].dependencies@[dd].arguments@.len() as nat,
        ) && #[trigger] failure_fields_ok(
            table.recipes@[j],
            table.recipes@[i].dependencies@[dd].arguments@.len() as nat,
            g,
            env,
            log,
            lo,
            error,
        )
}

/// Each failure a visit reports, tied to what the table holds: a
/// genuine dependency cycle rooted at the requested recipe, the
/// default-recipe condition, an arity mismatch at this visit's own
/// call or at some dependency, or an evaluation failure of one of the
/// table's own expressions.
pub open spec fn visit_fail_ok(
    table: Table,
    root: Seq<char>,
    own_name: Seq<char>,
    own_found: nat,
    is_default: bool,
    env: Seq<Binding>,
    log: Seq<BacktickOutcome>,
    error: RunError,
) -> bool {
    ||| (error matches RunError::CircularDependency { recipe: rn, cycle } && cycle@.len() >= 2
        && dep_chain(table, cycle@) && cycle@[0]@ == root && cycle@.last()@ == rn@ && exists|
        k: int,
    |
        0 <= k < cycle@.len() - 1 && (#[trigger] cycle@[k])@ == rn@)
    ||| (error matches RunError::DefaultRecipeRequiresArguments { recipe: rn, min_arguments: ma }
        && is_default && own_found == 0 && rn@ == own_name && exists|j: int|
        0 <= j < table.recipes@.len() && (#[trigger] table.recipes@[j]).name@ == own_name && ma
            == table.recipes@[j].min_args() && ma >= 1)
    ||| (error matches RunError::ArgumentCountMismatch { .. } && (dep_arity_failure(
        table,
        env,
        log,
        error,
    ) || exists|j: int, g: Scope, lo: int|
        0 <= j < table.recipes@.len() && table.recipes@[j].name@ == own_name && !arity_ok(
            table.recipes@[j],
            own_found,
        ) && #[trigger] failure_fields_ok(
            table.recipes@[j],
            own_found,
            g,
            env,
            log,
            lo,
            error,
        )))
    ||| eval_failure_from_table(table, env, log, error)
}

/// Each failure `plan` reports beyond the request-level ones comes out
/// of visiting a requested recipe (or the default one), tied to the
/// table.
pub open spec fn plan_fail_ok(
    table: Table,
    requests: Seq<Request>,
    env: Seq<Binding>,
    log: Seq<BacktickOutcome>,
    error: RunError,
) -> bool {
    ||| exists|q: int|
        0 <= q < requests.len() && visit_fail_ok(
            table,
            (#[trigger] requests[q]).name@,
            requests[q].name@,
            requests[q].arguments@.len() as nat,
            false,
            env,
            log,
            error,
        )
    ||| (requests.len() == 0 && table.recipes@.len() > 0 && visit_fail_ok(
        table,
        table.recipes@[0].name@,
        table.recipes@[0].name@,
        0,
        true,
        env,
        log,
        error,
    ))
}

/// Distinct names, each carried by some recipe of a well-formed table,
/// cannot outnumber the recipes.
pub proof fn lemma_distinct_names_bounded(table: Table, names: Seq<Seq<char>>)
    requires
        table.wf(),
        names.no_duplicates(),
        forall|k: int| 0 <= k < names.len() ==> table.has_recipe(#[trigger] names[k]),
    ensures
        names.len() <= table.recipes@.len(),
{
    broadcast use vstd::seq_lib::seq_to_set_is_finite;

    let tnames = table.recipes@.map_values(|r: Recipe| r.name@);
    names.unique_seq_to_set();
    tnames.lemma_cardinality_of_set();
    assert(names.to_set().subset_of(tnames.to_set())) by {
        assert forall|x: Seq<char>| names.to_set().contains(x) implies tnames.to_set().contains(
            x,
        ) by {
            let i = choose|i: int|
                0 <= i < table.recipes@.len() && table.recipes@[i].name@ == x;
            assert(tnames[i] == x);
            assert(tnames.contains(x));
        }
    }
    vstd::set_lib::lemma_len_subset(names.to_set(), tnames.to_set());
}

/// The requested names that no recipe of the table carries, in request
/// order, considering the first `n` requests.
pub open spec fn unknown_names(requests: Seq<Request>, table: Table, n: int) -> Seq<String>
    decreases n,
{
    if n <= 0 || n > requests.len() {
        Seq::<String>::empty()
    } else {
        unknown_names(requests, table, n - 1) + if table.has_recipe(requests[n - 1].name@) {
            Seq::<String>::empty()
        } else {
            seq![requests[n - 1].name]
        }
    }
}

/// An equal copy of an argument list.
pub fn clone_strings(v: &Vec<String>) -> (r: Vec<String>)
    ensures
        r@ == v@,
{
    let mut out: Vec<String> = Vec::new();
    let mut i: usize = 0;
    while i < v.len()
        invariant
            i <= v@.len(),
            out@ == v@.take(i as int),
        decreases v@.len() - i,
    {
        out.push(v[i].clone());
        proof {
            assert(out@ =~= v@.take(i + 1));
        }
        i = i + 1;
    }
    proof {
        assert(v@.take(v@.len() as int) =~= v@);
    }
    out
}

/// A copy of a scope whose every layer holds the same bindings.
pub fn clone_scope(s: &Scope) -> (r: Scope)
    ensures
        r.layers@.len() == s.layers@.len(),
        forall|i: int| 0 <= i < s.layers@.len() ==> (#[trigger] r.layers@[i])@ == s.layers@[i]@,
{
    let mut layers: Vec<Vec<Binding>> = Vec::new();
    let mut i: usize = 0;
    while i < s.layers.len()
        invariant
            i <= s.layers@.len(),
            layers@.len() == i as int,
            forall|k: int| 0 <= k < i ==> (#[trigger] layers@[k])@ == s.layers@[k]@,
        decreases s.layers@.len() - i,
    {
        let src = &s.layers[i];
        let mut layer: Vec<Binding> = Vec::new();
        let mut b: usize = 0;
        while b < src.len()
            invariant
                b <= src@.len(),
                layer@ == src@.take(b as int),
            decreases src@.len() - b,
        {
            layer.push(Binding { name: src[b].name.clone(), value: src[b].value.clone() });
            proof {
                assert(layer@ =~= src@.take(b + 1));
            }
            b = b + 1;
        }
        proof {
            assert(src@.take(src@.len() as int) =~= src@);
        }
        layers.push(layer);
        i = i + 1;
    }
    Scope { layers }
}

/// Whether the plan already holds an entry for this recipe with these
/// argument texts.
#[verifier::loop_isolation(false)]
fn plan_contains(plan: &Vec<PlanEntry>, name: &String, arguments: &Vec<String>) -> (r: bool)
    ensures
        r == exists|j: int|
            0 <= j < plan@.len() && (#[trigger] plan@[j]).name@ == name@ && key_eq(
                plan@[j].arguments@,
                arguments@,
            ),
{
    let mut j: usize = 0;
    while j < plan.len()
        invariant
            j <= plan@.len(),
            forall|k: int|
                0 <= k < j ==> !((#[trigger] plan@[k]).name@ == name@ && key_eq(
                    plan@[k].arguments@,
                    arguments@,
                )),
        decreases plan@.len() - j,
    {
        let e = &plan[j];
        if e.name == *name && e.arguments.len() == arguments.len() {
            let mut a: usize = 0;
            let mut all = true;
            while a < arguments.len()
                invariant
                    a <= arguments@.len(),
                    e.arguments@.len() == arguments@.len(),
                    all == (forall|t: int|
                        0 <= t < a ==> e.arguments@[t]@ == #[trigger] arguments@[t]@),
                decreases arguments@.len() - a,
            {
                if !(e.arguments[a] == arguments[a]) {
                    all = false;
                }
                a = a + 1;
            }
            if all {
                return true;
            }
        }
        j = j + 1;
    }
    false
}

/// Whether the current traversal path already carries this name.
#[verifier::loop_isolation(false)]
fn path_contains(path: &Vec<String>, name: &String) -> (r: bool)
    ensures
        r == exists|k: int| 0 <= k < path@.len() && (#[trigger] path@[k])@ == name@,
{
    let mut k: usize = 0;
    while k < path.len()
        invariant
            k <= path@.len(),
            forall|t: int| 0 <= t < k ==> (#[trigger] path@[t])@ != name@,
        decreases path@.len() - k,
    {
        if path[k] == *name {
            return true;
        }
        k = k + 1;
    }
    false
}

/// Visits one recipe depth-first: checks the path for a cycle, binds
/// the supplied arguments, resolves every dependency first (its
/// argument expressions evaluated in this recipe's bound scope), then
/// appends the entry. Already-planned (recipe, arguments) pairs are not
/// re-enqueued. The fuel starts at the recipe count; the path holds
/// distinct recipe names of the table, so it is proved never to run
/// dry.
#[verifier::loop_isolation(false)]
#[verifier::rlimit(100)]
#[verifier::spinoff_prover]
fn visit(
    table: &Table,
    ri: usize,
    supplied: Vec<String>,
    is_default: bool,
    path: &Vec<String>,
    plan: Vec<PlanEntry>,
    globals: &Scope,
    env: &Vec<Binding>,
    log: &Vec<BacktickOutcome>,
    used: usize,
    fuel: usize,
    Ghost(root): Ghost<Seq<char>>,
) -> (r: PlanStep)
    requires
        table.wf(),
        ri < table.recipes@.len(),
        used <= log@.len(),
        entries_ok(*table, plan@),
        no_dup(plan@),
        deps_before(*table, plan@),
        forall|k: int, l: int|
            0 <= k < l < path@.len() ==> (#[trigger] path@[k])@ != (#[trigger] path@[l])@,
        forall|k: int| 0 <= k < path@.len() ==> table.has_recipe((#[trigger] path@[k])@),
        dep_chain(*table, path@),
        path@.len() > 0 ==> dep_edge(*table, path@.last()@, table.recipes@[ri as int].name@),
        path@.len() > 0 ==> path@[0]@ == root,
        path@.len() == 0 ==> table.recipes@[ri as int].name@ == root,
        table.recipes@.len() - path@.len() <= fuel,
    ensures
        r matches PlanStep::PDone { plan: p2, used: u } ==> {
            &&& used <= u <= log@.len()
            &&& p2@.len() >= plan@.len()
            &&& p2@.take(plan@.len() as int) == plan@
            &&& entries_ok(*table, p2@)
            &&& no_dup(p2@)
            &&& deps_before(*table, p2@)
            &&& forall|k: int|
                0 <= k < path@.len() ==> name_absent_from(p2@, plan@.len() as int, (
                #[trigger] path@[k])@)
            &&& exists|j: int|
                0 <= j < p2@.len() && (#[trigger] p2@[j]).name@ == table.recipes@[ri as int].name@
                    && key_eq(p2@[j].arguments@, supplied@)
            &&& forall|k: int|
                plan@.len() <= k < p2@.len() ==> entry_bound(
                    *table,
                    #[trigger] p2@[k],
                    *globals,
                    env@,
                    log@,
                )
        },
        r matches PlanStep::PNeed { command, used: u } ==> used <= u <= log@.len()
            && pending_from_table(*table, env@, log@, command@, u as int),
        r matches PlanStep::PFail { error } ==> !(error is NoRecipes) && !(error matches
            RunError::UnknownRecipes { .. }) && visit_fail_ok(
            *table,
            root,
            table.recipes@[ri as int].name@,
            supplied@.len() as nat,
            is_default,
            env@,
            log@,
            error,
        ),
        (is_default && supplied@.len() == 0 && plan@.len() == 0 && path@.len() == 0
            && table.recipes@[ri as int].min_args() >= 1) ==> (r matches PlanStep::PFail { error }
            && error matches RunError::DefaultRecipeRequiresArguments { .. }),
    decreases fuel,
{
    let recipe = &table.recipes[ri];
    if plan_contains(&plan, &recipe.name, &supplied) {
        proof {
            assert(plan@.take(plan@.len() as int) =~= plan@);
        }
        return PlanStep::PDone { plan, used };
    }
    if path_contains(path, &recipe.name) {
        let mut cycle = clone_strings(path);
        cycle.push(recipe.name.clone());
        proof {
            assert(cycle@.len() == path@.len() + 1);
            assert(forall|k: int| 0 <= k < path@.len() ==> #[trigger] cycle@[k] == path@[k]);
            assert(cycle@.last() == recipe.name);
            assert(dep_chain(*table, cycle@)) by {
                assert forall|k: int| 0 <= k < cycle@.len() - 1 implies dep_edge(
                    *table,
                    (#[trigger] cycle@[k])@,
                    cycle@[k + 1]@,
                ) by {
                    if k < path@.len() - 1 {
                        assert(dep_edge(*table, path@[k]@, path@[k + 1]@));
                    } else {
                        assert(cycle@[k] == path@.last());
                        assert(dep_edge(*table, path@.last()@, table.recipes@[ri as int].name@));
                    }
                }
            }
        }
        let err = RunError::CircularDependency { recipe: recipe.name.clone(), cycle };
        proof {
            let k0 = choose|k: int|
                0 <= k < path@.len() && (#[trigger] path@[k])@ == recipe.name@;
            assert(err->CircularDependency_cycle@[k0]@ == err->CircularDependency_recipe@);
            assert(0 <= k0 < err->CircularDependency_cycle@.len() - 1);
            assert(visit_fail_ok(
                *table,
                root,
                table.recipes@[ri as int].name@,
                supplied@.len() as nat,
                is_default,
                env@,
                log@,
                err,
            ));
        }
        return PlanStep::PFail { error: err };
    }
    proof {
        let names = path@.map_values(|nm: String| nm@).push(recipe.name@);
        assert(names.no_duplicates()) by {
            assert(forall|k: int|
                0 <= k < path@.len() ==> names[k] == (#[trigger] path@[k])@);
            assert(names.last() == recipe.name@);
            assert(forall|k: int|
                0 <= k < path@.len() ==> #[trigger] names[k] != names[path@.len() as int]);
        }
        assert(forall|k: int| 0 <= k < names.len() ==> table.has_recipe(#[trigger] names[k]));
        lemma_distinct_names_bounded(*table, names);
        assert(fuel >= 1);
    }
    let g_clone = clone_scope(globals);
    let ghost gsnap = g_clone;
    let outcome = bind(recipe, &supplied, is_default, g_clone, env, log, used);
    let (scope_r, mut u) = match outcome {
        BindOutcome::Bound { scope, used: u2 } => (scope, u2),
        BindOutcome::BindPending { command, used: u2 } => {
            proof {
                let g = (GEval::Need { command: command@, used: u2 as int });
                let (dx, scx, u0x) = choose|dx: Expression, scx: Scope, u0x: int|
                    {
                        &&& exists|i: int|
                            0 <= i < recipe.parameters@.len() && (
                            #[trigger] recipe.parameters@[i]).default == Option::Some(dx)
                        &&& scx.layers@.len() == gsnap.layers@.len() + 1
                        &&& scx.layers@.drop_last() == gsnap.layers@
                        &&& scx.layers@.last()@.len() <= recipe.parameters@.len()
                        &&& forall|k: int|
                            0 <= k < scx.layers@.last()@.len() ==> (
                            #[trigger] scx.layers@.last()@[k]).name@
                                == recipe.parameters@[k].name@
                        &&& used as int <= u0x
                        &&& #[trigger] eval_spec(dx, scx, env@, log@, u0x) == g
                    };
                assert(table_expr(*table, dx));
                assert(pending_from_table(*table, env@, log@, command@, u2 as int));
            }
            return PlanStep::PNeed { command, used: u2 };
        },
        BindOutcome::BindFailed { error } => {
            proof {
                if error matches RunError::ArgumentCountMismatch { .. } {
                    assert(!arity_ok(table.recipes@[ri as int], supplied@.len() as nat));
                    assert(failure_fields_ok(
                        table.recipes@[ri as int],
                        supplied@.len() as nat,
                        gsnap,
                        env@,
                        log@,
                        used as int,
                        error,
                    ));
                } else if error matches RunError::DefaultRecipeRequiresArguments { .. } {
                } else {
                    let ge = choose|ge: GErr|
                        err_matches(error, ge) && crate::binder::default_step(
                            table.recipes@[ri as int],
                            gsnap,
                            env@,
                            log@,
                            used as int,
                            GEval::Fail { error: ge },
                        );
                    let g = (GEval::Fail { error: ge });
                    let (dx, scx, u0x) = choose|dx: Expression, scx: Scope, u0x: int|
                        {
                            &&& exists|i: int|
                                0 <= i < recipe.parameters@.len() && (
                                #[trigger] recipe.parameters@[i]).default == Option::Some(dx)
                            &&& scx.layers@.len() == gsnap.layers@.len() + 1
                            &&& scx.layers@.drop_last() == gsnap.layers@
                            &&& scx.layers@.last()@.len() <= recipe.parameters@.len()
                            &&& forall|k: int|
                                0 <= k < scx.layers@.last()@.len() ==> (
                                #[trigger] scx.layers@.last()@[k]).name@
                                    == recipe.parameters@[k].name@
                            &&& used as int <= u0x
                            &&& #[trigger] eval_spec(dx, scx, env@, log@, u0x) == g
                        };
                    assert(table_expr(*table, dx));
                    assert(err_matches(error, ge));
                    assert(eval_failure_from_table(*table, env@, log@, error));
                }
                assert(visit_fail_ok(
                    *table,
                    root,
                    table.recipes@[ri as int].name@,
                    supplied@.len() as nat,
                    is_default,
                    env@,
                    log@,
                    error,
                ));
            }
            return PlanStep::PFail { error };
        },
    };
    let ghost u_after_bind = u as int;
    let mut path2 = clone_strings(path);
    path2.push(recipe.name.clone());
    let mut out = plan;
    let ghost base = out@.len() as int;
    let ndeps = recipe.dependencies.len();
    let mut d: usize = 0;
    while d < ndeps
        invariant
            d <= ndeps,
            ndeps == recipe.dependencies@.len(),
            used <= u <= log@.len(),
            out@.len() >= base,
            out@.take(base) == plan@,
            entries_ok(*table, out@),
            no_dup(out@),
            deps_before(*table, out@),
            forall|k: int, j: int|
                0 <= k < path2@.len() && base <= j < out@.len() ==> (#[trigger] out@[j]).name@
                    != (#[trigger] path2@[k])@,
            forall|k: int|
                base <= k < out@.len() ==> entry_bound(
                    *table,
                    #[trigger] out@[k],
                    *globals,
                    env@,
                    log@,
                ),
            forall|dd: int|
                #![trigger recipe.dependencies@[dd]]
                0 <= dd < d ==> exists|j: int|
                    0 <= j < out@.len() && (#[trigger] out@[j]).name@ == recipe.dependencies@[dd]
                        .recipe@,
        decreases ndeps - d,
    {
        let dep = &recipe.dependencies[d];
        let mut dep_args: Vec<String> = Vec::new();
        let nargs = dep.arguments.len();
        let mut a: usize = 0;
        while a < nargs
            invariant
                a <= nargs,
                nargs == dep.arguments@.len(),
                dep_args@.len() == a as int,
                used <= u <= log@.len(),
            decreases nargs - a,
        {
            let ghost u_before = u as int;
            let step = evaluate(&dep.arguments[a], &scope_r, env, log, u);
            proof {
                assert(*dep == table.recipes@[ri as int].dependencies@[d as int]);
                assert(table_expr(*table, dep.arguments@[a as int]));
            }
            match step {
                EvalStep::Finished { text, used: u2 } => {
                    dep_args.push(text);
                    u = u2;
                },
                EvalStep::Pending { command, used: u2 } => {
                    proof {
                        assert(eval_spec(dep.arguments@[a as int], scope_r, env@, log@, u_before)
                            == (GEval::Need { command: command@, used: u2 as int }));
                        assert(pending_from_table(*table, env@, log@, command@, u2 as int));
                    }
                    return PlanStep::PNeed { command, used: u2 };
                },
                EvalStep::Failed { error } => {
                    proof {
                        let g = eval_spec(dep.arguments@[a as int], scope_r, env@, log@, u_before);
                        let ge = g->Fail_error;
                        assert(err_matches(error, ge));
                        assert(eval_failure_from_table(*table, env@, log@, error));
                        assert(visit_fail_ok(
                            *table,
                            root,
                            table.recipes@[ri as int].name@,
                            supplied@.len() as nat,
                            is_default,
                            env@,
                            log@,
                            error,
                        ));
                    }
                    return PlanStep::PFail { error };
                },
            }
            a = a + 1;
        }
        let di = match table.find(&dep.recipe) {
            Option::Some(di) => di,
            // a well-formed table resolves every dependency
            Option::None => {
                proof {
                    assert(false);
                }
                0
            },
        };
        proof {
            assert(path2@.last() == recipe.name);
            assert(path2@[0] == (if path@.len() > 0 { path@[0] } else { recipe.name }));
            assert(dep_chain(*table, path2@)) by {
                assert(forall|k: int|
                    0 <= k < path@.len() ==> #[trigger] path2@[k] == path@[k]);
                assert forall|k: int| 0 <= k < path2@.len() - 1 implies dep_edge(
                    *table,
                    (#[trigger] path2@[k])@,
                    path2@[k + 1]@,
                ) by {
                    if k < path@.len() - 1 {
                        assert(dep_edge(*table, path@[k]@, path@[k + 1]@));
                    } else {
                        assert(path2@[k] == path@.last());
                    }
                }
            }
            assert(dep_edge(*table, path2@.last()@, table.recipes@[di as int].name@)) by {
                assert(table.recipes@[ri as int].name@ == path2@.last()@);
                assert((#[trigger] table.recipes@[ri as int].dependencies@[d as int]).recipe@
                    == table.recipes@[di as int].name@);
            }
            assert(dep_args@.len() == dep.arguments@.len());
        }
        let ghost dep_found = dep_args@.len() as nat;
        let step = visit(
            table,
            di,
            dep_args,
            false,
            &path2,
            out,
            globals,
            env,
            log,
            u,
            fuel - 1,
            Ghost(root),
        );
        match step {
            PlanStep::PDone { plan: p2, used: u2 } => {
                proof {
                    assert(forall|j: int|
                        0 <= j < out@.len() ==> #[trigger] p2@[j] == p2@.take(
                            out@.len() as int,
                        )[j]);
                    assert(forall|j: int| 0 <= j < out@.len() ==> #[trigger] p2@[j] == out@[j]);
                    assert(p2@.take(base) =~= out@.take(base));
                    assert forall|dd: int|
                        #![trigger recipe.dependencies@[dd]]
                        0 <= dd < d + 1 implies exists|j: int|
                        0 <= j < p2@.len() && (#[trigger] p2@[j]).name@ == recipe.dependencies@[
                            dd].recipe@ by {
                        if dd < d {
                            let j = choose|j: int|
                                0 <= j < out@.len() && (#[trigger] out@[j]).name@
                                    == recipe.dependencies@[dd].recipe@;
                            assert(p2@[j] == out@[j]);
                        } else {
                            let j = choose|j: int|
                                0 <= j < p2@.len() && (#[trigger] p2@[j]).name@
                                    == table.recipes@[di as int].name@ && key_eq(
                                    p2@[j].arguments@,
                                    dep_args@,
                                );
                            assert(p2@[j].name@ == recipe.dependencies@[dd].recipe@);
                        }
                    };
                }
                out = p2;
                u = u2;
            },
            PlanStep::PNeed { command, used: u2 } => {
                return PlanStep::PNeed { command, used: u2 };
            },
            PlanStep::PFail { error } => {
                proof {
                    assert(visit_fail_ok(
                        *table,
                        root,
                        table.recipes@[ri as int].name@,
                        supplied@.len() as nat,
                        is_default,
                        env@,
                        log@,
                        error,
                    )) by {
                        if error matches RunError::ArgumentCountMismatch { .. } {
                            if !dep_arity_failure(*table, env@, log@, error) {
                                let (j, g, lo) = choose|j: int, g: Scope, lo: int|
                                    0 <= j < table.recipes@.len() && table.recipes@[j].name@
                                        == table.recipes@[di as int].name@ && !arity_ok(
                                        table.recipes@[j],
                                        dep_found,
                                    ) && #[trigger] failure_fields_ok(
                                        table.recipes@[j],
                                        dep_found,
                                        g,
                                        env@,
                                        log@,
                                        lo,
                                        error,
                                    );
                                assert(table.recipes@[j].name@ == (
                                #[trigger] table.recipes@[ri as int].dependencies@[
                                    d as int]).recipe@);
                                assert(dep_found == table.recipes@[ri as int].dependencies@[
                                    d as int].arguments@.len() as nat);
                                assert(failure_fields_ok(
                                    table.recipes@[j],
                                    table.recipes@[ri as int].dependencies@[
                                        d as int].arguments@.len() as nat,
                                    g,
                                    env@,
                                    log@,
                                    lo,
                                    error,
                                ));
                                assert(dep_arity_failure(*table, env@, log@, error));
                            }
                        }
                    }
                }
                return PlanStep::PFail { error };
            },
        }
        d = d + 1;
    }
    let entry = PlanEntry { index: ri, name: recipe.name.clone(), arguments: supplied, scope: scope_r };
    let ghost before_push = out@;
    out.push(entry);
    proof {
        assert(out@.last().index == ri);
        assert(gsnap.layers@.len() == globals.layers@.len());
        assert(bound_props(
            table.recipes@[ri as int],
            out@.last().arguments@,
            gsnap,
            env@,
            log@,
            used as int,
            out@.last().scope,
            u_after_bind,
        ));
        assert(entry_bound(*table, out@.last(), *globals, env@, log@));
        assert(out@.take(base) =~= before_push.take(base));
        assert(forall|i: int| 0 <= i < out@.len() - 1 ==> #[trigger] out@[i] == before_push[i]);
        assert(path2@[path2@.len() - 1]@ == recipe.name@);
        assert(forall|j: int|
            base <= j < before_push.len() ==> (#[trigger] before_push[j]).name@
                != recipe.name@);
        assert(forall|j: int| 0 <= j < base ==> #[trigger] before_push[j] == plan@[j]);
        assert(forall|j: int|
            0 <= j < before_push.len() ==> !((#[trigger] before_push[j]).name@ == recipe.name@
                && key_eq(before_push[j].arguments@, supplied@)));
        assert(no_dup(out@));
        assert(forall|k: int|
            0 <= k < path@.len() ==> (#[trigger] path@[k])@ == path2@[k]@);
        assert(out@[out@.len() - 1].name@ == table.recipes@[ri as int].name@ && key_eq(
            out@[out@.len() - 1].arguments@,
            supplied@,
        ));
        assert(deps_before(*table, out@)) by {
            assert forall|i: int| 0 <= i < out@.len() implies entry_deps_before(
                *table,
                out@,
                i,
            ) by {
                assert forall|d: int|
                    0 <= d < table.recipes@[out@[i].index as int].dependencies@.len() implies
                    name_before(
                    out@,
                    i,
                    table.recipes@[out@[i].index as int].dependencies@[d].recipe@,
                ) by {
                    if i < out@.len() - 1 {
                        assert(out@[i] == before_push[i]);
                        assert(entry_deps_before(*table, before_push, i));
                        assert(name_before(
                            before_push,
                            i,
                            table.recipes@[before_push[i].index as int].dependencies@[d].recipe@,
                        ));
                        let j = choose|j: int|
                            0 <= j < i && (#[trigger] before_push[j]).name@ == table.recipes@[
                                before_push[i].index as int].dependencies@[d].recipe@;
                        assert(out@[j] == before_push[j]);
                        assert(out@[j].name@ == table.recipes@[out@[i].index as int]
                            .dependencies@[d].recipe@);
                    } else {
                        assert(out@[i].index == ri);
                        assert(recipe.dependencies@[d] == table.recipes@[out@[i].index as int]
                            .dependencies@[d]);
                        let j = choose|j: int|
                            0 <= j < before_push.len() && (#[trigger] before_push[j]).name@
                                == recipe.dependencies@[d].recipe@;
                        assert(out@[j] == before_push[j]);
                        assert(out@[j].name@ == table.recipes@[out@[i].index as int]
                            .dependencies@[d].recipe@);
                    }
                };
            };
        }
    }
    PlanStep::PDone { plan: out, used: u }
}

/// Builds the execution plan for the requested invocations. A request
/// naming no recipe of the table fails, collecting every unknown name
/// from the batch with a nearest-match suggestion for the first one; an
/// empty request set falls back to the default (first) recipe, and to
/// the distinct no-recipes failure when the table is empty.
#[verifier::loop_isolation(false)]
#[verifier::rlimit(100)]
#[verifier::spinoff_prover]
pub fn plan(
    table: &Table,
    requests: &Vec<Request>,
    globals: &Scope,
    env: &Vec<Binding>,
    log: &Vec<BacktickOutcome>,
    used: usize,
) -> (r: PlanStep)
    requires
        table.wf(),
        used <= log@.len(),
    ensures
        r matches PlanStep::PDone { plan: p, used: u } ==> {
            &&& used <= u <= log@.len()
            &&& entries_ok(*table, p@)
            &&& no_dup(p@)
            &&& deps_before(*table, p@)
            &&& forall|q: int|
                0 <= q < requests@.len() ==> exists|j: int|
                    0 <= j < p@.len() && (#[trigger] p@[j]).name@ == (#[trigger] requests@[q])
                        .name@ && key_eq(p@[j].arguments@, requests@[q].arguments@)
            &&& (requests@.len() == 0 && table.recipes@.len() > 0 ==> exists|j: int|
                0 <= j < p@.len() && (#[trigger] p@[j]).name@ == table.recipes@[0].name@)
            &&& forall|k: int|
                0 <= k < p@.len() ==> entry_bound(*table, #[trigger] p@[k], *globals, env@, log@)
        },
        (requests@.len() == 0 && table.recipes@.len() == 0) <==> (r matches PlanStep::PFail {
            error,
        } && error is NoRecipes),
        (requests@.len() == 0 && table.recipes@.len() > 0 && table.recipes@[0].min_args() >= 1)
            <==> (r matches PlanStep::PFail { error } && error matches
            RunError::DefaultRecipeRequiresArguments { .. }),
        r matches PlanStep::PFail { error } ==> (error is NoRecipes || error matches
            RunError::UnknownRecipes { .. } || plan_fail_ok(*table, requests@, env@, log@, error)),
        r matches PlanStep::PNeed { command, used: u } ==> used <= u <= log@.len()
            && pending_from_table(*table, env@, log@, command@, u as int),
        (exists|q: int|
            0 <= q < requests@.len() && !table.has_recipe(
                (#[trigger] requests@[q]).name@,
            )) <==> (r matches PlanStep::PFail { error } && error matches
            RunError::UnknownRecipes { .. }),
        r matches PlanStep::PFail { error } ==> (error matches RunError::UnknownRecipes {
            recipes: rs,
            ..
        } ==> rs@.len() == unknown_names(requests@, *table, requests@.len() as int).len()
            && forall|i: int|
            0 <= i < rs@.len() ==> (#[trigger] rs@[i])@ == unknown_names(
                requests@,
                *table,
                requests@.len() as int,
            )[i]@),
        r matches PlanStep::PFail { error } ==> (error matches RunError::UnknownRecipes {
            suggestion: sg,
            ..
        } ==> sg == suggestion_for(
            table.recipes@.map_values(|rc: Recipe| rc.name),
            unknown_names(requests@, *table, requests@.len() as int)[0]@,
        )),
{
    if requests.len() == 0 {
        if table.recipes.len() == 0 {
            return PlanStep::PFail { error: RunError::NoRecipes };
        }
        let path: Vec<String> = Vec::new();
        let out: Vec<PlanEntry> = Vec::new();
        let step = visit(
            table,
            0,
            Vec::new(),
            true,
            &path,
            out,
            globals,
            env,
            log,
            used,
            table.recipes.len(),
            Ghost(table.recipes@[0].name@),
        );
        proof {
            let gstep = step;
            match gstep {
                PlanStep::PFail { error } => {
                    match error {
                        RunError::DefaultRecipeRequiresArguments { .. } => {
                            let j = choose|j: int|
                                0 <= j < table.recipes@.len() && (
                                #[trigger] table.recipes@[j]).name@ == table.recipes@[0].name@
                                    && error->DefaultRecipeRequiresArguments_min_arguments
                                    == table.recipes@[j].min_args()
                                    && error->DefaultRecipeRequiresArguments_min_arguments >= 1;
                            assert(j == 0);
                        },
                        _ => {},
                    }
                },
                _ => {},
            }
        }
        return step;
    }
    let mut unknown: Vec<String> = Vec::new();
    let mut q: usize = 0;
    while q < requests.len()
        invariant
            q <= requests@.len(),
            unknown@.len() == unknown_names(requests@, *table, q as int).len(),
            forall|i: int|
                0 <= i < unknown@.len() ==> (#[trigger] unknown@[i])@ == unknown_names(
                    requests@,
                    *table,
                    q as int,
                )[i]@,
            (unknown@.len() == 0) == (forall|t: int|
                0 <= t < q ==> table.has_recipe((#[trigger] requests@[t]).name@)),
        decreases requests@.len() - q,
    {
        let req = &requests[q];
        match table.find(&req.name) {
            Option::Some(_) => {},
            Option::None => {
                unknown.push(req.name.clone());
            },
        }
        proof {
            let g = unknown_names(requests@, *table, q + 1);
            assert(unknown@.len() == g.len() && forall|i: int|
                0 <= i < unknown@.len() ==> (#[trigger] unknown@[i])@ == g[i]@);
        }
        q = q + 1;
    }
    if unknown.len() > 0 {
        let mut names: Vec<String> = Vec::new();
        let mut t: usize = 0;
        while t < table.recipes.len()
            invariant
                t <= table.recipes@.len(),
                names@.len() == t as int,
                forall|i: int| 0 <= i < t ==> #[trigger] names@[i] == table.recipes@[i].name,
            decreases table.recipes@.len() - t,
        {
            names.push(table.recipes[t].name.clone());
            t = t + 1;
        }
        proof {
            assert(names@ =~= table.recipes@.map_values(|rc: Recipe| rc.name));
        }
        let sg = suggest(unknown[0].as_str(), &names);
        return PlanStep::PFail {
            error: RunError::UnknownRecipes { recipes: unknown, suggestion: sg },
        };
    }
    let path: Vec<String> = Vec::new();
    let mut out: Vec<PlanEntry> = Vec::new();
    let mut u: usize = used;
    let mut i: usize = 0;
    while i < requests.len()
        invariant
            i <= requests@.len(),
            used <= u <= log@.len(),
            entries_ok(*table, out@),
            no_dup(out@),
            deps_before(*table, out@),
            forall|t: int| 0 <= t < requests@.len() ==> table.has_recipe((#[trigger] requests@[t]).name@),
            forall|t: int|
                0 <= t < i ==> exists|j: int|
                    0 <= j < out@.len() && (#[trigger] out@[j]).name@ == (#[trigger] requests@[t])
                        .name@ && key_eq(out@[j].arguments@, requests@[t].arguments@),
            forall|k: int|
                0 <= k < out@.len() ==> entry_bound(*table, #[trigger] out@[k], *globals, env@, log@),
        decreases requests@.len() - i,
    {
        let req = &requests[i];
        let ri = match table.find(&req.name) {
            Option::Some(ri) => ri,
            // every requested name was found above
            Option::None => {
                proof {
                    assert(false);
                }
                0
            },
        };
        let args = clone_strings(&req.arguments);
        let step = visit(
            table,
            ri,
            args,
            false,
            &path,
            out,
            globals,
            env,
            log,
            u,
            table.recipes.len(),
            Ghost(req.name@),
        );
        match step {
            PlanStep::PDone { plan: p2, used: u2 } => {
                proof {
                    assert(forall|j: int|
                        0 <= j < out@.len() ==> #[trigger] p2@[j] == p2@.take(
                            out@.len() as int,
                        )[j]);
                    assert(forall|j: int| 0 <= j < out@.len() ==> #[trigger] p2@[j] == out@[j]);
                }
                out = p2;
                u = u2;
            },
            PlanStep::PNeed { command, used: u2 } => {
                return PlanStep::PNeed { command, used: u2 };
            },
            PlanStep::PFail { error } => {
                proof {
                    assert(visit_fail_ok(
                        *table,
                        requests@[i as int].name@,
                        requests@[i as int].name@,
                        requests@[i as int].arguments@.len() as nat,
                        false,
                        env@,
                        log@,
                        error,
                    ));
                    assert(plan_fail_ok(*table, requests@, env@, log@, error));
                    match error {
                        RunError::DefaultRecipeRequiresArguments { .. } => {
                            assert(false);
                        },
                        _ => {},
                    }
                }
                return PlanStep::PFail { error };
            },
        }
        i = i + 1;
    }
    PlanStep::PDone { plan: out, used: u }
}

} // verus!
