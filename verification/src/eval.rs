//! The expression evaluator: renders an expression tree against a
//! layered scope into concrete text. Command substitution is the one
//! step the evaluator cannot take itself: a backtick's outcome is read
//! from a log of outcomes already observed, and when the log runs out
//! the evaluator hands back the rendered command for the driver to run.
//! Given the same log, evaluation is a pure function, stated exactly by
//! the specification interpreter below.

use vstd::prelude::*;
use crate::error::{IoInfo, OutputError, RunError, Suggestion};
use crate::expr::Expression;
use crate::scope::{chain_names, layer_lookup, Binding, Scope};
use crate::strutil::{dec_digits, usize_to_string};
use crate::suggest::{suggest, suggestion_for};

verus! {

/// What the driver observed of one backtick subprocess.
#[derive(Debug, PartialEq, Eq)]
pub enum BacktickOutcome {
    /// The shell ran; its exit code or fatal signal, and its captured
    /// standard output, decoded, or the decoder's message when the
    /// output was not valid text.
    Launched { code: Option<i32>, signal: Option<i32>, stdout: Result<String, String> },
    /// The shell could not be launched at all.
    LaunchFailed { io: IoInfo },
}

/// Trailing line endings removed: a final "\n", or "\r\n", repeatedly.
/// Interior whitespace and line endings stay untouched.
pub open spec fn strip_newlines(s: Seq<char>) -> Seq<char>
    decreases s.len(),
{
    if s.len() >= 2 && s[s.len() - 2] == '\r' && s[s.len() - 1] == '\n' {
        strip_newlines(s.take(s.len() - 2))
    } else if s.len() >= 1 && s[s.len() - 1] == '\n' {
        strip_newlines(s.take(s.len() - 1))
    } else {
        s
    }
}

/// The classification of one backtick outcome: the captured text with
/// trailing newlines stripped on a clean exit, the precise failure
/// otherwise.
pub open spec fn classify_spec(o: BacktickOutcome) -> Result<Seq<char>, OutputError> {
    match o {
        BacktickOutcome::LaunchFailed { io } => Result::Err(OutputError::Io(io)),
        BacktickOutcome::Launched { code, signal, stdout } => match code {
            Option::Some(c) => if c == 0 {
                match stdout {
                    Result::Ok(s) => Result::Ok(strip_newlines(s@)),
                    Result::Err(m) => Result::Err(OutputError::Utf8(m)),
                }
            } else {
                Result::Err(OutputError::Code(c))
            },
            Option::None => match signal {
                Option::Some(sig) => Result::Err(OutputError::Signal(sig)),
                Option::None => Result::Err(OutputError::Unknown),
            },
        },
    }
}

/// The failure of one evaluation, at specification level: the carried
/// text is by character sequence, the rest by value.
pub enum GErr {
    UnknownVariable { variable: String, suggestion: Option<Suggestion> },
    FunctionFailure { function: Seq<char>, message: Seq<char> },
    BacktickFailure { output_error: OutputError },
}

/// The result of evaluating one expression, at specification level.
pub enum GEval {
    /// Evaluation finished with this text, having consumed this many
    /// logged backtick outcomes.
    Done { text: Seq<char>, used: int },
    /// The log ran out: this rendered backtick command must be run next.
    Need { command: Seq<char>, used: int },
    /// Evaluation failed.
    Fail { error: GErr },
}

/// The result of evaluating a list of argument expressions.
pub enum GArgs {
    ADone { vals: Seq<Seq<char>>, used: int },
    ANeed { command: Seq<char>, used: int },
    AFail { error: GErr },
}

/// The meaning of one built-in function applied to evaluated argument
/// values, against the environment mapping.
pub open spec fn apply_spec(
    function: String,
    vals: Seq<Seq<char>>,
    env: Seq<Binding>,
    used: int,
) -> GEval {
    if function@ == "env_var"@ {
        if vals.len() != 1 {
            GEval::Fail {
                error: GErr::FunctionFailure {
                    function: function@,
                    message: "expected 1 argument but got "@ + dec_digits(vals.len()),
                },
            }
        } else {
            match layer_lookup(env, vals[0]) {
                Option::Some(v) => GEval::Done { text: v, used },
                Option::None => GEval::Fail {
                    error: GErr::FunctionFailure {
                        function: function@,
                        message: "environment variable `"@ + vals[0] + "` not set"@,
                    },
                },
            }
        }
    } else if function@ == "env_var_or_default"@ {
        if vals.len() != 2 {
            GEval::Fail {
                error: GErr::FunctionFailure {
                    function: function@,
                    message: "expected 2 arguments but got "@ + dec_digits(vals.len()),
                },
            }
        } else {
            match layer_lookup(env, vals[0]) {
                Option::Some(v) => GEval::Done { text: v, used },
                Option::None => GEval::Done { text: vals[1], used },
            }
        }
    } else {
        GEval::Fail {
            error: GErr::FunctionFailure { function: function@, message: "unknown function"@ },
        }
    }
}

/// The specification interpreter: what evaluating `e` yields against
/// scope, environment, and the log of backtick outcomes, `used` of
/// which are already consumed.
pub open spec fn eval_spec(
    e: Expression,
    scope: Scope,
    env: Seq<Binding>,
    log: Seq<BacktickOutcome>,
    used: int,
) -> GEval
    decreases e,
{
    match e {
        Expression::Literal(t) => GEval::Done { text: t@, used },
        Expression::Variable(n) => match scope.lookup_spec(n@) {
            Option::Some(v) => GEval::Done { text: v, used },
            Option::None => GEval::Fail {
                error: GErr::UnknownVariable {
                    variable: n,
                    suggestion: suggestion_for(chain_names(scope.layers@), n@),
                },
            },
        },
        Expression::Call { function, arguments } => match eval_args_spec(
            arguments@,
            scope,
            env,
            log,
            used,
            arguments@.len() as int,
        ) {
            GArgs::ADone { vals, used: u } => apply_spec(function, vals, env, u),
            GArgs::ANeed { command, used: u } => GEval::Need { command, used: u },
            GArgs::AFail { error } => GEval::Fail { error },
        },
        Expression::Backtick(inner) => match eval_spec(*inner, scope, env, log, used) {
            GEval::Done { text: command, used: u } => if u < log.len() {
                match classify_spec(log[u]) {
                    Result::Ok(text) => GEval::Done { text, used: u + 1 },
                    Result::Err(oe) => GEval::Fail {
                        error: GErr::BacktickFailure { output_error: oe },
                    },
                }
            } else {
                GEval::Need { command, used: u }
            },
            other => other,
        },
        Expression::Concat(parts) => eval_parts_spec(
            parts@,
            scope,
            env,
            log,
            used,
            parts@.len() as int,
        ),
    }
}

/// Evaluates the first `n` concatenation parts in order, joining their
/// texts.
pub open spec fn eval_parts_spec(
    parts: Seq<Expression>,
    scope: Scope,
    env: Seq<Binding>,
    log: Seq<BacktickOutcome>,
    used: int,
    n: int,
) -> GEval
    decreases parts, n,
{
    if n <= 0 || n > parts.len() {
        GEval::Done { text: Seq::<char>::empty(), used }
    } else {
        match eval_parts_spec(parts, scope, env, log, used, n - 1) {
            GEval::Done { text, used: u } => match eval_spec(parts[n - 1], scope, env, log, u) {
                GEval::Done { text: t2, used: u2 } => GEval::Done { text: text + t2, used: u2 },
                other => other,
            },
            other => other,
        }
    }
}

/// Evaluates the first `n` argument expressions in order, keeping their
/// values apart.
pub open spec fn eval_args_spec(
    args: Seq<Expression>,
    scope: Scope,
    env: Seq<Binding>,
    log: Seq<BacktickOutcome>,
    used: int,
    n: int,
) -> GArgs
    decreases args, n,
{
    if n <= 0 || n > args.len() {
        GArgs::ADone { vals: Seq::<Seq<char>>::empty(), used }
    } else {
        match eval_args_spec(args, scope, env, log, used, n - 1) {
            GArgs::ADone { vals, used: u } => match eval_spec(args[n - 1], scope, env, log, u) {
                GEval::Done { text, used: u2 } => GArgs::ADone {
                    vals: vals.push(text),
                    used: u2,
                },
                GEval::Need { command, used: u2 } => GArgs::ANeed { command, used: u2 },
                GEval::Fail { error } => GArgs::AFail { error },
            },
            other => other,
        }
    }
}

/// The result of one evaluation attempt.
#[derive(Debug, PartialEq, Eq)]
pub enum EvalStep {
    /// Evaluation finished with this text, having consumed this many
    /// logged backtick outcomes.
    Finished { text: String, used: usize },
    /// The log ran out: the driver must run this backtick command and
    /// log its outcome.
    Pending { command: String, used: usize },
    /// Evaluation failed; the plan aborts.
    Failed { error: RunError },
}

/// Whether an evaluation result is the one the specification
/// interpreter names.
pub open spec fn step_matches(r: EvalStep, g: GEval) -> bool {
    match r {
        EvalStep::Finished { text, used } => g matches GEval::Done { text: t, used: u } && text@
            == t && used == u,
        EvalStep::Pending { command, used } => g matches GEval::Need { command: c, used: u }
            && command@ == c && used == u,
        EvalStep::Failed { error } => g matches GEval::Fail { error: ge } && err_matches(
            error,
            ge,
        ),
    }
}

/// Whether an error value carries exactly what the specification
/// failure names.
pub open spec fn err_matches(e: RunError, g: GErr) -> bool {
    match g {
        GErr::UnknownVariable { variable, suggestion } => e == (RunError::EvalUnknownVariable {
            variable,
            suggestion,
        }),
        GErr::FunctionFailure { function, message } => e matches RunError::FunctionCall {
            function: f,
            context: Option::None,
            message: m,
        } && f@ == function && m@ == message,
        GErr::BacktickFailure { output_error } => e == (RunError::Backtick {
            context: Option::None,
            output_error,
        }),
    }
}

/// Removes trailing line endings: a final "\n", or "\r\n", repeatedly.
pub fn strip_trailing_newlines(s: &str) -> (r: String)
    ensures
        r@ == strip_newlines(s@),
{
    let mut k: usize = s.unicode_len();
    proof {
        assert(s@.take(k as int) =~= s@);
    }
    loop
        invariant_except_break
            k <= s@.len(),
            strip_newlines(s@.take(k as int)) == strip_newlines(s@),
        ensures
            k <= s@.len(),
            strip_newlines(s@.take(k as int)) == strip_newlines(s@),
            k == 0 || s@[k as int - 1] != '\n',
        decreases k,
    {
        if k == 0 {
            break;
        }
        let c = s.get_char(k - 1);
        if c != '\n' {
            break;
        }
        if k >= 2 && s.get_char(k - 2) == '\r' {
            proof {
                let t = s@.take(k as int);
                assert(t[k as int - 2] == s@[k as int - 2] && t[k as int - 1] == s@[k as int - 1]);
                assert(t.take(k as int - 2) =~= s@.take(k as int - 2));
            }
            k = k - 2;
        } else {
            proof {
                let t = s@.take(k as int);
                assert(t[k as int - 1] == s@[k as int - 1]);
                assert(!(t.len() >= 2 && t[t.len() - 2] == '\r' && t[t.len() - 1] == '\n'));
                assert(t.take(k as int - 1) =~= s@.take(k as int - 1));
            }
            k = k - 1;
        }
    }
    proof {
        let t = s@.take(k as int);
        assert(strip_newlines(t) == t);
    }
    let kept = s.substring_char(0, k);
    proof {
        assert(kept@ =~= s@.take(k as int));
    }
    kept.to_owned()
}

/// Classifies one backtick outcome, exactly as `classify_spec` states.
pub fn classify_backtick(o: &BacktickOutcome) -> (r: Result<String, OutputError>)
    ensures
        match classify_spec(*o) {
            Result::Ok(t) => r matches Result::Ok(s) && s@ == t,
            Result::Err(oe) => r == Result::<String, OutputError>::Err(oe),
        },
{
    match o {
        BacktickOutcome::LaunchFailed { io } => Result::Err(
            OutputError::Io(IoInfo { kind: io.kind, message: io.message.clone() }),
        ),
        BacktickOutcome::Launched { code, signal, stdout } => match code {
            Option::Some(c) => if *c == 0 {
                match stdout {
                    Result::Ok(s) => Result::Ok(strip_trailing_newlines(s.as_str())),
                    Result::Err(m) => Result::Err(OutputError::Utf8(m.clone())),
                }
            } else {
                Result::Err(OutputError::Code(*c))
            },
            Option::None => match signal {
                Option::Some(sig) => Result::Err(OutputError::Signal(*sig)),
                Option::None => Result::Err(OutputError::Unknown),
            },
        },
    }
}

/// Evaluates `e` against the scope, the environment mapping, and the
/// log of backtick outcomes already observed, `used` of which are
/// consumed. The result is exactly what the specification interpreter
/// names.
#[verifier::loop_isolation(false)]
#[verifier::rlimit(60)]
pub fn evaluate(
    e: &Expression,
    scope: &Scope,
    env: &Vec<Binding>,
    log: &Vec<BacktickOutcome>,
    used: usize,
) -> (r: EvalStep)
    requires
        used <= log@.len(),
    ensures
        step_matches(r, eval_spec(*e, *scope, env@, log@, used as int)),
        r matches EvalStep::Finished { used: u, .. } ==> used <= u <= log@.len(),
        r matches EvalStep::Pending { used: u, .. } ==> used <= u <= log@.len(),
    decreases *e,
{
    match e {
        Expression::Literal(t) => EvalStep::Finished { text: t.clone(), used },
        Expression::Variable(n) => match scope.lookup(n) {
            Option::Some(v) => EvalStep::Finished { text: v, used },
            Option::None => {
                let names = scope.visible_names();
                let sugg = suggest(n.as_str(), &names);
                EvalStep::Failed {
                    error: RunError::EvalUnknownVariable { variable: n.clone(), suggestion: sugg },
                }
            },
        },
        Expression::Call { function, arguments } => {
            let mut vals: Vec<String> = Vec::new();
            let mut u: usize = used;
            let mut i: usize = 0;
            while i < arguments.len()
                invariant
                    i <= arguments@.len(),
                    used <= u <= log@.len(),
                    eval_args_spec(arguments@, *scope, env@, log@, used as int, i as int)
                        matches GArgs::ADone { vals: gv, used: gu } && gu == u && gv.len()
                        == vals@.len() && (forall|j: int|
                        0 <= j < vals@.len() ==> gv[j] == #[trigger] vals@[j]@),
                decreases arguments@.len() - i,
            {
                let ae = &arguments[i];
                proof {
                    assert(*ae == e->Call_arguments@[i as int]);
                    assert(decreases_to!(*e => e->Call_arguments));
                    assert(decreases_to!(*arguments => arguments@));
                    assert(decreases_to!(arguments@ => arguments@[i as int]));
                }
                let step = evaluate(ae, scope, env, log, u);
                match step {
                    EvalStep::Finished { text, used: u2 } => {
                        vals.push(text);
                        u = u2;
                        proof {
                            let g = eval_args_spec(
                                arguments@,
                                *scope,
                                env@,
                                log@,
                                used as int,
                                i + 1,
                            );
                            assert(g matches GArgs::ADone { vals: gv, used: gu } && gu == u
                                && gv.len() == vals@.len() && (forall|j: int|
                                0 <= j < vals@.len() ==> gv[j] == #[trigger] vals@[j]@));
                        }
                    },
                    EvalStep::Pending { command, used: u2 } => {
                        proof {
                            lemma_args_propagate(
                                arguments@,
                                *scope,
                                env@,
                                log@,
                                used as int,
                                i + 1,
                                arguments@.len() as int,
                            );
                        }
                        return EvalStep::Pending { command, used: u2 };
                    },
                    EvalStep::Failed { error } => {
                        proof {
                            lemma_args_propagate(
                                arguments@,
                                *scope,
                                env@,
                                log@,
                                used as int,
                                i + 1,
                                arguments@.len() as int,
                            );
                        }
                        return EvalStep::Failed { error };
                    },
                }
                i = i + 1;
            }
            proof {
                let g = eval_args_spec(
                    arguments@,
                    *scope,
                    env@,
                    log@,
                    used as int,
                    arguments@.len() as int,
                );
                assert(g->ADone_vals =~= vals@.map_values(|v: String| v@));
            }
            apply_function(function, &vals, env, u)
        },
        Expression::Backtick(inner) => {
            proof {
                assert(decreases_to!(*e => e->Backtick_0));
            }
            let step = evaluate(inner, scope, env, log, used);
            match step {
                EvalStep::Finished { text: command, used: u } => {
                    if u < log.len() {
                        match classify_backtick(&log[u]) {
                            Result::Ok(text) => EvalStep::Finished { text, used: u + 1 },
                            Result::Err(oe) => EvalStep::Failed {
                                error: RunError::Backtick {
                                    context: Option::None,
                                    output_error: oe,
                                },
                            },
                        }
                    } else {
                        EvalStep::Pending { command, used: u }
                    }
                },
                other => other,
            }
        },
        Expression::Concat(parts) => {
            let mut text = String::new();
            let mut u: usize = used;
            let mut i: usize = 0;
            while i < parts.len()
                invariant
                    i <= parts@.len(),
                    used <= u <= log@.len(),
                    eval_parts_spec(parts@, *scope, env@, log@, used as int, i as int)
                        matches GEval::Done { text: gt, used: gu } && gu == u && gt == text@,
                decreases parts@.len() - i,
            {
                let pe = &parts[i];
                proof {
                    assert(*pe == e->Concat_0@[i as int]);
                    assert(decreases_to!(*e => e->Concat_0));
                    assert(decreases_to!(*parts => parts@));
                    assert(decreases_to!(parts@ => parts@[i as int]));
                }
                let step = evaluate(pe, scope, env, log, u);
                match step {
                    EvalStep::Finished { text: t2, used: u2 } => {
                        text.append(t2.as_str());
                        u = u2;
                    },
                    EvalStep::Pending { command, used: u2 } => {
                        proof {
                            lemma_parts_propagate(
                                parts@,
                                *scope,
                                env@,
                                log@,
                                used as int,
                                i + 1,
                                parts@.len() as int,
                            );
                        }
                        return EvalStep::Pending { command, used: u2 };
                    },
                    EvalStep::Failed { error } => {
                        proof {
                            lemma_parts_propagate(
                                parts@,
                                *scope,
                                env@,
                                log@,
                                used as int,
                                i + 1,
                                parts@.len() as int,
                            );
                        }
                        return EvalStep::Failed { error };
                    },
                }
                i = i + 1;
            }
            EvalStep::Finished { text, used: u }
        },
    }
}

/// Applies one built-in function to its evaluated argument values,
/// exactly as `apply_spec` states.
fn apply_function(
    function: &String,
    vals: &Vec<String>,
    env: &Vec<Binding>,
    used: usize,
) -> (r: EvalStep)
    ensures
        step_matches(
            r,
            apply_spec(*function, vals@.map_values(|v: String| v@), env@, used as int),
        ),
        r matches EvalStep::Finished { used: u, .. } ==> u == used,
        !(r is Pending),
{
    let ghost gvals = vals@.map_values(|v: String| v@);
    if string_eq_literal(function, "env_var") {
        if vals.len() != 1 {
            let mut m = String::from_str("expected 1 argument but got ");
            let d = usize_to_string(vals.len());
            m.append(d.as_str());
            EvalStep::Failed {
                error: RunError::FunctionCall {
                    function: function.clone(),
                    context: Option::None,
                    message: m,
                },
            }
        } else {
            match env_lookup(env, &vals[0]) {
                Option::Some(v) => EvalStep::Finished { text: v, used },
                Option::None => {
                    let mut m = String::from_str("environment variable `");
                    m.append(vals[0].as_str());
                    m.append("` not set");
                    proof {
                        assert(m@ =~= "environment variable `"@ + gvals[0] + "` not set"@);
                    }
                    EvalStep::Failed {
                        error: RunError::FunctionCall {
                            function: function.clone(),
                            context: Option::None,
                            message: m,
                        },
                    }
                },
            }
        }
    } else if string_eq_literal(function, "env_var_or_default") {
        if vals.len() != 2 {
            let mut m = String::from_str("expected 2 arguments but got ");
            let d = usize_to_string(vals.len());
            m.append(d.as_str());
            EvalStep::Failed {
                error: RunError::FunctionCall {
                    function: function.clone(),
                    context: Option::None,
                    message: m,
                },
            }
        } else {
            match env_lookup(env, &vals[0]) {
                Option::Some(v) => EvalStep::Finished { text: v, used },
                Option::None => EvalStep::Finished { text: vals[1].clone(), used },
            }
        }
    } else {
        EvalStep::Failed {
            error: RunError::FunctionCall {
                function: function.clone(),
                context: Option::None,
                message: String::from_str("unknown function"),
            },
        }
    }
}

/// Whether a string equals a literal name.
fn string_eq_literal(s: &String, lit: &str) -> (r: bool)
    ensures
        r == (s@ == lit@),
{
    let other = lit.to_owned();
    *s == other
}

/// Looks a name up in the environment mapping, in shadowing order.
#[verifier::loop_isolation(false)]
fn env_lookup(env: &Vec<Binding>, name: &String) -> (r: Option<String>)
    ensures
        match layer_lookup(env@, name@) {
            Option::Some(v) => r matches Option::Some(x) && x@ == v,
            Option::None => r is None,
        },
{
    proof {
        assert(env@.take(env@.len() as int) =~= env@);
    }
    let mut bi: usize = env.len();
    while bi > 0
        invariant
            bi <= env@.len(),
            layer_lookup(env@.take(bi as int), name@) == layer_lookup(env@, name@),
        decreases bi,
    {
        bi = bi - 1;
        let b = &env[bi];
        proof {
            assert(env@.take(bi + 1).last() == env@[bi as int]);
            assert(env@.take(bi + 1).drop_last() =~= env@.take(bi as int));
        }
        if b.name == *name {
            return Option::Some(b.value.clone());
        }
    }
    proof {
        assert(env@.take(0) =~= Seq::<Binding>::empty());
    }
    Option::None
}

/// Once part evaluation has stopped (needing a command or failing),
/// evaluating further parts changes nothing.
pub proof fn lemma_parts_propagate(
    parts: Seq<Expression>,
    scope: Scope,
    env: Seq<Binding>,
    log: Seq<BacktickOutcome>,
    used: int,
    n: int,
    m: int,
)
    requires
        0 <= n <= m <= parts.len(),
        !(eval_parts_spec(parts, scope, env, log, used, n) is Done),
    ensures
        eval_parts_spec(parts, scope, env, log, used, m) == eval_parts_spec(
            parts,
            scope,
            env,
            log,
            used,
            n,
        ),
    decreases m - n,
{
    if m > n {
        lemma_parts_propagate(parts, scope, env, log, used, n, m - 1);
    }
}

/// Once argument evaluation has stopped, evaluating further arguments
/// changes nothing.
pub proof fn lemma_args_propagate(
    args: Seq<Expression>,
    scope: Scope,
    env: Seq<Binding>,
    log: Seq<BacktickOutcome>,
    used: int,
    n: int,
    m: int,
)
    requires
        0 <= n <= m <= args.len(),
        !(eval_args_spec(args, scope, env, log, used, n) is ADone),
    ensures
        eval_args_spec(args, scope, env, log, used, m) == eval_args_spec(
            args,
            scope,
            env,
            log,
            used,
            n,
        ),
    decreases m - n,
{
    if m > n {
        lemma_args_propagate(args, scope, env, log, used, n, m - 1);
    }
}

} // verus!
