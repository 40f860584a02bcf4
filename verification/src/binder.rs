//! The argument binder: matches a recipe's declared parameters against
//! caller-supplied positional arguments, evaluating defaults lazily in a
//! scope holding only the bindings established so far, and reporting
//! every arity failure exactly.

use vstd::prelude::*;
use crate::error::RunError;
use crate::eval::{
    err_matches, eval_spec, evaluate, BacktickOutcome, EvalStep, GErr, GEval,
};
use crate::expr::Expression;
use crate::recipe::{clone_parameters, ParamKind, Recipe};
use crate::scope::{Binding, Scope};

verus! {

/// The result of one binding attempt.
#[derive(Debug, PartialEq, Eq)]
pub enum BindOutcome {
    /// The supplied scope extended with one layer binding every
    /// parameter.
    Bound { scope: Scope, used: usize },
    /// A default's backtick must be run before binding can finish.
    BindPending { command: String, used: usize },
    /// Binding failed: an arity mismatch, the default-recipe condition,
    /// or a failure while evaluating a default.
    BindFailed { error: RunError },
}

/// Whether `found` supplied arguments fit the recipe's arity.
pub open spec fn arity_ok(recipe: Recipe, found: nat) -> bool {
    found >= recipe.min_args() && (recipe.is_variadic() || found <= recipe.max_args())
}

/// The dedicated condition for the implicitly selected default recipe:
/// the caller never had a chance to supply the arguments it demands.
pub open spec fn default_needs_args(recipe: Recipe, found: nat, is_default: bool) -> bool {
    is_default && found == 0 && recipe.min_args() >= 1
}

/// The remaining supplied arguments joined by single spaces, as a
/// variadic parameter receives them.
pub open spec fn join_args(vals: Seq<String>, from: int, to: int) -> Seq<char>
    decreases to - from,
{
    if from < 0 || to > vals.len() || from >= to {
        Seq::<char>::empty()
    } else if to == from + 1 {
        vals[from]@
    } else {
        join_args(vals, from, to - 1) + " "@ + vals[to - 1]@
    }
}

/// Whether `value` is what evaluating `d` yields in the scope `outer`
/// extended with the bindings `prefix`, consuming logged backtick
/// outcomes between `lo` and `hi`.
pub open spec fn default_evaluated(
    d: Expression,
    outer: Scope,
    prefix: Seq<Binding>,
    value: Seq<char>,
    env: Seq<Binding>,
    log: Seq<BacktickOutcome>,
    lo: int,
) -> bool {
    exists|sc: Scope, u0: int, u1: int|
        {
            &&& sc.layers@.len() == outer.layers@.len() + 1
            &&& sc.layers@.drop_last() == outer.layers@
            &&& sc.layers@.last()@ == prefix
            &&& lo <= u0 <= u1 <= log.len()
            &&& eval_spec(d, sc, env, log, u0) == (GEval::Done { text: value, used: u1 })
        }
}

/// Whether `g` is the outcome of evaluating some parameter default of
/// the recipe in a one-layer extension of `outer` whose layer holds the
/// bindings established so far: one binding per earlier parameter,
/// under that parameter's name.
pub open spec fn default_step(
    recipe: Recipe,
    outer: Scope,
    env: Seq<Binding>,
    log: Seq<BacktickOutcome>,
    lo: int,
    g: GEval,
) -> bool {
    exists|d: Expression, sc: Scope, u0: int|
        {
            &&& exists|i: int|
                0 <= i < recipe.parameters@.len() && (#[trigger] recipe.parameters@[i]).default
                    == Option::Some(d)
            &&& sc.layers@.len() == outer.layers@.len() + 1
            &&& sc.layers@.drop_last() == outer.layers@
            &&& sc.layers@.last()@.len() <= recipe.parameters@.len()
            &&& forall|k: int|
                0 <= k < sc.layers@.last()@.len() ==> (#[trigger] sc.layers@.last()@[k]).name@
                    == recipe.parameters@[k].name@
            &&& lo <= u0
            &&& #[trigger] eval_spec(d, sc, env, log, u0) == g
        }
}

/// The count of parameters bound one-to-one to a supplied argument.
pub open spec fn fixed_count(recipe: Recipe) -> nat {
    if recipe.is_variadic() {
        (recipe.parameters@.len() - 1) as nat
    } else {
        recipe.parameters@.len() as nat
    }
}


/// Whether the outcome is the dedicated default-recipe failure.
pub open spec fn is_default_needs_failure(r: BindOutcome) -> bool {
    r matches BindOutcome::BindFailed { error } && error matches
        RunError::DefaultRecipeRequiresArguments { .. }
}

/// Whether the outcome is an arity-mismatch failure.
pub open spec fn is_arity_failure(r: BindOutcome) -> bool {
    r matches BindOutcome::BindFailed { error } && error matches
        RunError::ArgumentCountMismatch { .. }
}

/// What each binding failure must carry: the two arity-family errors
/// with their exact fields, and any other failure rooted in evaluating
/// a parameter default.
pub open spec fn failure_fields_ok(
    recipe: Recipe,
    found: nat,
    outer: Scope,
    env: Seq<Binding>,
    log: Seq<BacktickOutcome>,
    lo: int,
    error: RunError,
) -> bool {
    &&& (error matches RunError::DefaultRecipeRequiresArguments { recipe: rn, min_arguments: ma }
        ==> rn@ == recipe.name@ && ma == recipe.min_args())
    &&& (error matches RunError::ArgumentCountMismatch {
        recipe: rn,
        parameters: ps,
        found: f,
        min: m,
        max: mx,
    } ==> {
        &&& rn@ == recipe.name@
        &&& f == found
        &&& m == recipe.min_args()
        &&& (recipe.is_variadic() ==> mx == usize::MAX)
        &&& (!recipe.is_variadic() ==> mx == recipe.max_args())
        &&& ps@.len() == recipe.parameters@.len()
        &&& crate::error::params_text(ps@, ps@.len() as int) == crate::error::params_text(
            recipe.parameters@,
            recipe.parameters@.len() as int,
        )
    })
    &&& (!(error matches RunError::DefaultRecipeRequiresArguments { .. }) && !(error matches
        RunError::ArgumentCountMismatch { .. }) ==> exists|ge: GErr|
        err_matches(error, ge) && default_step(
            recipe,
            outer,
            env,
            log,
            lo,
            GEval::Fail { error: ge },
        ))
}

/// Everything a successful binding promises of the scope it returns.
pub open spec fn bound_props(
    recipe: Recipe,
    supplied: Seq<String>,
    outer: Scope,
    env: Seq<Binding>,
    log: Seq<BacktickOutcome>,
    lo: int,
    scope: Scope,
    u: int,
) -> bool {
    &&& arity_ok(recipe, supplied.len() as nat)
    &&& lo <= u <= log.len()
    &&& scope.layers@.len() == outer.layers@.len() + 1
    &&& scope.layers@.drop_last() == outer.layers@
    &&& scope.layers@.last()@.len() == recipe.parameters@.len()
    &&& forall|i: int|
        0 <= i < recipe.parameters@.len() ==> (#[trigger] scope.layers@.last()@[i]).name@
            == recipe.parameters@[i].name@
    &&& forall|i: int|
        0 <= i < fixed_count(recipe) && i < supplied.len() ==> (
        #[trigger] scope.layers@.last()@[i]).value@ == supplied[i]@
    &&& forall|i: int|
        supplied.len() <= i < fixed_count(recipe) ==> (recipe.parameters@[i].default matches
            Option::Some(d) && default_evaluated(
            d,
            outer,
            scope.layers@.last()@.take(i),
            (#[trigger] scope.layers@.last()@[i]).value@,
            env,
            log,
            lo,
        ))
    &&& (recipe.is_variadic() ==> {
        let lv = scope.layers@.last()@.last().value@;
        let fc = fixed_count(recipe) as int;
        &&& (supplied.len() > fc ==> lv == join_args(supplied, fc, supplied.len() as int))
        &&& (supplied.len() <= fc ==> (recipe.parameters@.last().default matches Option::Some(d)
            ==> default_evaluated(
            d,
            outer,
            scope.layers@.last()@.take(fc),
            lv,
            env,
            log,
            lo,
        )))
        &&& (supplied.len() <= fc && recipe.parameters@.last().default is None ==> lv
            == Seq::<char>::empty())
    })
}

/// Binds `supplied` to the recipe's parameters over the scope `outer`.
/// Arity is decided first, exactly; then parameters are bound
/// positionally, a trailing variadic parameter taking every remaining
/// argument joined by spaces, and unsupplied parameters evaluating
/// their defaults lazily over the bindings established so far.
#[verifier::loop_isolation(false)]
#[verifier::rlimit(60)]
pub fn bind(
    recipe: &Recipe,
    supplied: &Vec<String>,
    is_default: bool,
    outer: Scope,
    env: &Vec<Binding>,
    log: &Vec<BacktickOutcome>,
    used: usize,
) -> (r: BindOutcome)
    requires
        recipe.wf(),
        used <= log@.len(),
    ensures
        default_needs_args(*recipe, supplied@.len() as nat, is_default)
            <==> is_default_needs_failure(r),
        (!default_needs_args(*recipe, supplied@.len() as nat, is_default) && !arity_ok(
            *recipe,
            supplied@.len() as nat,
        )) <==> is_arity_failure(r),
        r matches BindOutcome::BindFailed { error } ==> failure_fields_ok(
            *recipe,
            supplied@.len() as nat,
            outer,
            env@,
            log@,
            used as int,
            error,
        ),
        r matches BindOutcome::Bound { scope, used: u } ==> bound_props(
            *recipe,
            supplied@,
            outer,
            env@,
            log@,
            used as int,
            scope,
            u as int,
        ),
        r matches BindOutcome::BindPending { command, used: u } ==> used <= u <= log@.len()
            && default_step(
            *recipe,
            outer,
            env@,
            log@,
            used as int,
            GEval::Need { command: command@, used: u as int },
        ),
{
    let found = supplied.len();
    let min = recipe.count_min_args();
    let nparams = recipe.parameters.len();
    let variadic = nparams > 0 && (match recipe.parameters[nparams - 1].kind {
        ParamKind::Singular => false,
        _ => true,
    });
    let fixed: usize = if variadic {
        nparams - 1
    } else {
        nparams
    };
    if is_default && found == 0 && min >= 1 {
        return BindOutcome::BindFailed {
            error: RunError::DefaultRecipeRequiresArguments {
                recipe: recipe.name.clone(),
                min_arguments: min,
            },
        };
    }
    if found < min || (!variadic && found > nparams) {
        return BindOutcome::BindFailed {
            error: RunError::ArgumentCountMismatch {
                recipe: recipe.name.clone(),
                parameters: clone_parameters(&recipe.parameters),
                found,
                min,
                max: if variadic {
                    usize::MAX
                } else {
                    nparams
                },
            },
        };
    }
    let ghost outer0 = outer;
    let mut sc = outer;
    let mut layer: Vec<Binding> = Vec::new();
    let mut u: usize = used;
    let mut j: usize = 0;
    while j < fixed
        invariant
            j <= fixed,
            used <= u <= log@.len(),
            layer@.len() == j as int,
            min <= found,
            sc.layers@ == outer0.layers@,
            forall|i: int|
                0 <= i < j ==> (#[trigger] layer@[i]).name@ == recipe.parameters@[i].name@,
            forall|i: int| 0 <= i < j && i < found ==> (#[trigger] layer@[i]).value@ == supplied@[i]@,
            forall|i: int|
                found <= i < j ==> (recipe.parameters@[i].default matches Option::Some(d)
                    && default_evaluated(
                    d,
                    outer0,
                    layer@.take(i),
                    (#[trigger] layer@[i]).value@,
                    env@,
                    log@,
                    used as int,
                )),
        decreases fixed - j,
    {
        let p = &recipe.parameters[j];
        if j < found {
            layer.push(Binding { name: p.name.clone(), value: supplied[j].clone() });
        } else {
            proof {
                assert(p.kind is Singular);
                assert(j < recipe.min_args() || p.default is Some);
            }
            match &p.default {
                Option::Some(d) => {
                    let ghost prefix = layer@;
                    let ghost u_before = u as int;
                    sc.layers.push(layer);
                    let ghost sc_at = sc;
                    let step = evaluate(d, &sc, env, log, u);
                    let back = sc.layers.pop();
                    layer = match back {
                        Option::Some(l) => l,
                        Option::None => Vec::new(),
                    };
                    proof {
                        assert(layer@ == prefix);
                        assert(sc.layers@ =~= outer0.layers@);
                        assert(sc_at.layers@.drop_last() =~= outer0.layers@);
                        assert(sc_at.layers@.last()@ == prefix);
                    }
                    match step {
                        EvalStep::Finished { text, used: u2 } => {
                            let ghost tview = text@;
                            proof {
                                assert(eval_spec(*d, sc_at, env@, log@, u_before) == (GEval::Done {
                                    text: tview,
                                    used: u2 as int,
                                }));
                                assert(default_evaluated(
                                    *d,
                                    outer0,
                                    prefix,
                                    tview,
                                    env@,
                                    log@,
                                    used as int,
                                ));
                            }
                            layer.push(Binding { name: p.name.clone(), value: text });
                            u = u2;
                            proof {
                                assert(forall|i: int|
                                    0 <= i <= j ==> #[trigger] layer@.take(i) =~= prefix.take(i));
                                assert(layer@.take(j as int) =~= prefix);
                            }
                        },
                        EvalStep::Pending { command, used: u2 } => {
                            return BindOutcome::BindPending { command, used: u2 };
                        },
                        EvalStep::Failed { error } => {
                            return BindOutcome::BindFailed { error };
                        },
                    }
                },
                // a well-formed recipe gives every parameter past the
                // minimum a default
                Option::None => {
                    proof {
                        assert(false);
                    }
                },
            }
        }
        j = j + 1;
    }
    let ghost after_fixed = layer@;
    if variadic {
        let p = &recipe.parameters[fixed];
        if found > fixed {
            let mut joined = String::new();
            let mut k: usize = fixed;
            while k < found
                invariant
                    fixed <= k <= found,
                    found == supplied@.len(),
                    joined@ == join_args(supplied@, fixed as int, k as int),
                decreases found - k,
            {
                if k > fixed {
                    joined.append(" ");
                }
                joined.append(supplied[k].as_str());
                proof {
                    assert(joined@ =~= join_args(supplied@, fixed as int, k + 1));
                }
                k = k + 1;
            }
            layer.push(Binding { name: p.name.clone(), value: joined });
        } else {
            match &p.default {
                Option::Some(d) => {
                    let ghost prefix = layer@;
                    let ghost u_before = u as int;
                    sc.layers.push(layer);
                    let ghost sc_at = sc;
                    let step = evaluate(d, &sc, env, log, u);
                    let back = sc.layers.pop();
                    layer = match back {
                        Option::Some(l) => l,
                        Option::None => Vec::new(),
                    };
                    proof {
                        assert(layer@ == prefix);
                        assert(sc.layers@ =~= outer0.layers@);
                        assert(sc_at.layers@.drop_last() =~= outer0.layers@);
                        assert(sc_at.layers@.last()@ == prefix);
                    }
                    match step {
                        EvalStep::Finished { text, used: u2 } => {
                            let ghost tview = text@;
                            proof {
                                assert(eval_spec(*d, sc_at, env@, log@, u_before) == (GEval::Done {
                                    text: tview,
                                    used: u2 as int,
                                }));
                                assert(default_evaluated(
                                    *d,
                                    outer0,
                                    prefix,
                                    tview,
                                    env@,
                                    log@,
                                    used as int,
                                ));
                            }
                            layer.push(Binding { name: p.name.clone(), value: text });
                            u = u2;
                            proof {
                                assert(layer@.take(fixed as int) =~= prefix);
                            }
                        },
                        EvalStep::Pending { command, used: u2 } => {
                            return BindOutcome::BindPending { command, used: u2 };
                        },
                        EvalStep::Failed { error } => {
                            return BindOutcome::BindFailed { error };
                        },
                    }
                },
                Option::None => {
                    proof {
                        assert(!(p.kind is OneOrMore));
                    }
                    layer.push(Binding { name: p.name.clone(), value: String::new() });
                },
            }
        }
    }
    let ghost layerv = layer@;
    sc.layers.push(layer);
    proof {
        assert(sc.layers@.drop_last() =~= outer0.layers@);
        assert(sc.layers@.last()@ == layerv);
        assert(layerv.take(fixed as int) =~= after_fixed.take(fixed as int));
        assert(after_fixed.take(fixed as int) =~= after_fixed);
        assert(forall|i: int|
            0 <= i <= fixed ==> #[trigger] layerv.take(i) =~= after_fixed.take(i));
    }
    BindOutcome::Bound { scope: sc, used: u }
}

} // verus!
