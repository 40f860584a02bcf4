//! Laws of the execution core that span several components, stated and
//! proved once: literal-only expressions reproduce their text exactly,
//! and a plan runs a dependency chain strictly before its dependents.

use vstd::prelude::*;
use crate::error::RunError;
use crate::eval::{eval_parts_spec, eval_spec, BacktickOutcome, GEval};
use crate::expr::{lit_only, lit_only_upto, lit_text, lit_text_upto, Expression};
use crate::plan::{
    dep_chain, deps_before, entries_ok, entry_deps_before, name_before, pending_from_table,
    plan_fail_ok, table_expr, PlanEntry, PlanStep, Request,
};
use crate::recipe::Table;
use crate::scope::{Binding, Scope};

verus! {

/// Round trip: an expression built purely from literal text evaluates
/// to exactly that text, in every scope and environment, consuming no
/// backtick outcome, with all internal whitespace preserved.
pub proof fn lemma_literal_evaluation(
    e: Expression,
    scope: Scope,
    env: Seq<Binding>,
    log: Seq<BacktickOutcome>,
    used: int,
)
    requires
        lit_only(e),
    ensures
        eval_spec(e, scope, env, log, used) == (GEval::Done { text: lit_text(e), used }),
    decreases e,
{
    match e {
        Expression::Literal(_) => {},
        Expression::Concat(parts) => {
            lemma_literal_parts(parts@, scope, env, log, used, parts@.len() as int);
        },
        _ => {},
    }
}

/// The same, over the first `n` parts of a concatenation.
pub proof fn lemma_literal_parts(
    parts: Seq<Expression>,
    scope: Scope,
    env: Seq<Binding>,
    log: Seq<BacktickOutcome>,
    used: int,
    n: int,
)
    requires
        lit_only_upto(parts, n),
        n <= parts.len(),
    ensures
        eval_parts_spec(parts, scope, env, log, used, n) == (GEval::Done {
            text: lit_text_upto(parts, n),
            used,
        }),
    decreases parts, n,
{
    if n > 0 {
        lemma_literal_parts(parts, scope, env, log, used, n - 1);
        lemma_literal_evaluation(parts[n - 1], scope, env, log, used);
    }
}

/// A dependency chain runs in order: when entry `a`'s recipe names a
/// dependency resolved by recipe `rb`, some earlier entry `b` runs
/// `rb`, and each dependency of `rb` runs at some entry earlier still.
pub proof fn lemma_dependency_chain(
    table: Table,
    p: Seq<PlanEntry>,
    a: int,
    rb: int,
    db: int,
    dc: int,
)
    requires
        table.wf(),
        entries_ok(table, p),
        deps_before(table, p),
        0 <= a < p.len(),
        0 <= db < table.recipes@[p[a].index as int].dependencies@.len(),
        0 <= rb < table.recipes@.len(),
        table.recipes@[rb].name@ == table.recipes@[p[a].index as int].dependencies@[db].recipe@,
        0 <= dc < table.recipes@[rb].dependencies@.len(),
    ensures
        exists|b: int, c: int|
            {
                &&& 0 <= c < b < a
                &&& (#[trigger] p[b]).name@ == table.recipes@[rb].name@
                &&& (#[trigger] p[c]).name@ == table.recipes@[rb].dependencies@[dc].recipe@
            },
{
    assert(entry_deps_before(table, p, a));
    assert(name_before(p, a, table.recipes@[p[a].index as int].dependencies@[db].recipe@));
    let b = choose|b: int|
        0 <= b < a && (#[trigger] p[b]).name@ == table.recipes@[p[a].index as int]
            .dependencies@[db].recipe@;
    assert(p[b].index < table.recipes@.len() && table.recipes@[p[b].index as int].name@ == p[
        b].name@);
    assert(p[b].index == rb) by {
        if p[b].index != rb {
            assert(table.recipes@[p[b].index as int].name@ == table.recipes@[rb].name@);
        }
    }
    assert(entry_deps_before(table, p, b));
    assert(name_before(p, b, table.recipes@[rb].dependencies@[dc].recipe@));
    let c = choose|c: int|
        0 <= c < b && (#[trigger] p[c]).name@ == table.recipes@[rb].dependencies@[dc].recipe@;
    assert(0 <= c < b < a && p[b].name@ == table.recipes@[rb].name@ && p[c].name@
        == table.recipes@[rb].dependencies@[dc].recipe@);
}

/// A recipe that depends on itself, directly or transitively, fails
/// with the circular-dependency error, and with it the process exits
/// with the generic nonzero code, never a recipe's own: on a table
/// whose recipes take no parameters and pass no dependency arguments,
/// a failed planning run of known, argument-free requests can only be
/// the circular-dependency failure, which carries no exit code. The
/// hypotheses are exactly what `plan`'s contract yields for a failed
/// run; no subprocess is involved, planning being pure but for the
/// supplied log.
pub proof fn lemma_plain_table_failure_is_circular(
    table: Table,
    requests: Seq<Request>,
    env: Seq<Binding>,
    log: Seq<BacktickOutcome>,
    error: RunError,
)
    requires
        forall|i: int|
            0 <= i < table.recipes@.len() ==> (#[trigger] table.recipes@[i]).parameters@.len()
                == 0,
        forall|i: int, d: int|
            0 <= i < table.recipes@.len() && 0 <= d < table.recipes@[i].dependencies@.len() ==> (
            #[trigger] table.recipes@[i].dependencies@[d]).arguments@.len() == 0,
        requests.len() > 0,
        forall|q: int| 0 <= q < requests.len() ==> (#[trigger] requests[q]).arguments@.len() == 0,
        forall|q: int| 0 <= q < requests.len() ==> table.has_recipe((#[trigger] requests[q]).name@),
        error is NoRecipes ==> requests.len() == 0 && table.recipes@.len() == 0,
        (error matches RunError::UnknownRecipes { .. }) ==> exists|q: int|
            0 <= q < requests.len() && !table.has_recipe((#[trigger] requests[q]).name@),
        (error matches RunError::DefaultRecipeRequiresArguments { .. }) ==> requests.len() == 0,
        error is NoRecipes || (error matches RunError::UnknownRecipes { .. }) || plan_fail_ok(
            table,
            requests,
            env,
            log,
            error,
        ),
    ensures
        error matches RunError::CircularDependency { .. },
        error.code_spec() is None,
{
    assert(!(error is NoRecipes));
    assert(!(error matches RunError::UnknownRecipes { .. }));
    assert(plan_fail_ok(table, requests, env, log, error));
    assert(forall|j: int|
        0 <= j < table.recipes@.len() ==> (#[trigger] table.recipes@[j]).min_args() == 0);
    assert(forall|j: int|
        0 <= j < table.recipes@.len() ==> !(#[trigger] table.recipes@[j]).is_variadic());
    assert(forall|j: int|
        0 <= j < table.recipes@.len() ==> crate::binder::arity_ok(
            #[trigger] table.recipes@[j],
            0,
        ));
    assert(forall|e: Expression| !(#[trigger] table_expr(table, e)));
    if !(error matches RunError::CircularDependency { .. }) {
        assert(false);
    }
}

/// Success is owed where nothing can refuse it: on a table whose
/// recipes take no parameters and pass no dependency arguments, with a
/// nonempty batch of known, argument-free requests and no dependency
/// cycle anywhere in the table, planning can neither fail nor ask for
/// a backtick, so it returns the finished plan. The hypotheses about
/// the outcome are exactly what `plan`'s contract yields.
pub proof fn lemma_plain_acyclic_planning_succeeds(
    table: Table,
    requests: Seq<Request>,
    env: Seq<Binding>,
    log: Seq<BacktickOutcome>,
    r: PlanStep,
)
    requires
        forall|i: int|
            0 <= i < table.recipes@.len() ==> (#[trigger] table.recipes@[i]).parameters@.len()
                == 0,
        forall|i: int, d: int|
            0 <= i < table.recipes@.len() && 0 <= d < table.recipes@[i].dependencies@.len() ==> (
            #[trigger] table.recipes@[i].dependencies@[d]).arguments@.len() == 0,
        requests.len() > 0,
        forall|q: int| 0 <= q < requests.len() ==> (#[trigger] requests[q]).arguments@.len() == 0,
        forall|q: int| 0 <= q < requests.len() ==> table.has_recipe((#[trigger] requests[q]).name@),
        forall|names: Seq<String>|
            !(#[trigger] dep_chain(table, names) && names.len() >= 2 && exists|k: int|
                0 <= k < names.len() - 1 && (#[trigger] names[k])@ == names.last()@),
        r matches PlanStep::PFail { error } ==> (error is NoRecipes || (error matches
            RunError::UnknownRecipes { .. }) || plan_fail_ok(table, requests, env, log, error)),
        (r matches PlanStep::PFail { error } && error is NoRecipes) ==> requests.len() == 0
            && table.recipes@.len() == 0,
        (r matches PlanStep::PFail { error } && error matches RunError::UnknownRecipes { .. })
            ==> exists|q: int|
            0 <= q < requests.len() && !table.has_recipe((#[trigger] requests[q]).name@),
        (r matches PlanStep::PFail { error } && error matches
            RunError::DefaultRecipeRequiresArguments { .. }) ==> requests.len() == 0,
        r matches PlanStep::PNeed { command, used: u } ==> pending_from_table(
            table,
            env,
            log,
            command@,
            u as int,
        ),
    ensures
        r is PDone,
{
    assert(forall|j: int|
        0 <= j < table.recipes@.len() ==> crate::binder::arity_ok(
            #[trigger] table.recipes@[j],
            0,
        ));
    assert(forall|e: Expression| !(#[trigger] table_expr(table, e)));
    match r {
        PlanStep::PDone { .. } => {},
        PlanStep::PNeed { .. } => {
            assert(false);
        },
        PlanStep::PFail { error } => {
            match error {
                RunError::CircularDependency { recipe: rn, cycle } => {
                    assert(!(dep_chain(table, cycle@) && cycle@.len() >= 2 && exists|k: int|
                        0 <= k < cycle@.len() - 1 && (#[trigger] cycle@[k])@ == cycle@.last()@));
                    assert(false);
                },
                _ => {
                    assert(false);
                },
            }
        },
    }
}

} // verus!
