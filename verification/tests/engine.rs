use recipe_engine::binder::{bind, BindOutcome};
use recipe_engine::error::{IoInfo, IoKind, OutputError, RunError, Suggestion};
use recipe_engine::eval::{classify_backtick, evaluate, strip_trailing_newlines, BacktickOutcome, EvalStep};
use recipe_engine::expr::Expression;
use recipe_engine::invoke::{
    classify_line_outcome, classify_script_outcome, parse_shebang, script_body, script_command,
    script_content, should_echo, SpawnOutcome,
};
use recipe_engine::plan::{plan, PlanStep, Request};
use recipe_engine::recipe::{Dependency, ParamKind, Parameter, Recipe, Table};
use recipe_engine::scope::{Binding, Scope};
use recipe_engine::suggest::suggest;

fn s(t: &str) -> String {
    t.to_string()
}

fn simple_recipe(name: &str, deps: &[&str]) -> Recipe {
    Recipe {
        name: s(name),
        parameters: vec![],
        dependencies: deps
            .iter()
            .map(|d| Dependency {
                recipe: s(d),
                arguments: vec![],
            })
            .collect(),
        lines: vec![],
        quiet: false,
        working_directory: None,
    }
}

fn param(name: &str, kind: ParamKind, default: Option<&str>) -> Parameter {
    Parameter {
        name: s(name),
        kind,
        default: default.map(|d| Expression::Literal(s(d))),
    }
}

fn empty_scope() -> Scope {
    Scope { layers: vec![] }
}

fn plan_names(p: &[recipe_engine::plan::PlanEntry]) -> Vec<String> {
    p.iter().map(|e| e.name.clone()).collect()
}

#[test]
fn chain_runs_dependencies_first() {
    // alpha depends on beta, beta on gamma; gamma declared last.
    let table = Table {
        recipes: vec![
            simple_recipe("alpha", &["beta"]),
            simple_recipe("beta", &["gamma"]),
            simple_recipe("gamma", &[]),
        ],
    };
    let requests = vec![Request {
        name: s("alpha"),
        arguments: vec![],
    }];
    match plan(&table, &requests, &empty_scope(), &vec![], &vec![], 0) {
        PlanStep::PDone { plan: p, .. } => {
            assert_eq!(plan_names(&p), vec![s("gamma"), s("beta"), s("alpha")]);
        }
        other => panic!("unexpected outcome: {other:?}"),
    }
}

#[test]
fn shared_dependency_runs_once() {
    // delta reaches gamma twice: directly and through beta.
    let table = Table {
        recipes: vec![
            simple_recipe("delta", &["gamma", "beta"]),
            simple_recipe("beta", &["gamma"]),
            simple_recipe("gamma", &[]),
        ],
    };
    let requests = vec![Request {
        name: s("delta"),
        arguments: vec![],
    }];
    match plan(&table, &requests, &empty_scope(), &vec![], &vec![], 0) {
        PlanStep::PDone { plan: p, .. } => {
            assert_eq!(plan_names(&p), vec![s("gamma"), s("beta"), s("delta")]);
        }
        other => panic!("unexpected outcome: {other:?}"),
    }
}

#[test]
fn self_dependency_is_a_circular_failure() {
    let table = Table {
        recipes: vec![simple_recipe("omega", &["omega"])],
    };
    let requests = vec![Request {
        name: s("omega"),
        arguments: vec![],
    }];
    match plan(&table, &requests, &empty_scope(), &vec![], &vec![], 0) {
        PlanStep::PFail { error } => {
            assert!(matches!(error, RunError::CircularDependency { .. }));
            assert_eq!(
                error.render_message(),
                "Recipe `omega` depends on itself: omega -> omega"
            );
        }
        other => panic!("unexpected outcome: {other:?}"),
    }
}

#[test]
fn transitive_cycle_is_detected() {
    let table = Table {
        recipes: vec![
            simple_recipe("a", &["b"]),
            simple_recipe("b", &["c"]),
            simple_recipe("c", &["a"]),
        ],
    };
    let requests = vec![Request {
        name: s("a"),
        arguments: vec![],
    }];
    match plan(&table, &requests, &empty_scope(), &vec![], &vec![], 0) {
        PlanStep::PFail { error } => {
            assert!(matches!(error, RunError::CircularDependency { .. }));
        }
        other => panic!("unexpected outcome: {other:?}"),
    }
}

#[test]
fn unknown_requests_collected_with_suggestion() {
    let table = Table {
        recipes: vec![simple_recipe("build", &[])],
    };
    let requests = vec![
        Request {
            name: s("bild"),
            arguments: vec![],
        },
        Request {
            name: s("xyz"),
            arguments: vec![],
        },
    ];
    match plan(&table, &requests, &empty_scope(), &vec![], &vec![], 0) {
        PlanStep::PFail { error } => match error {
            RunError::UnknownRecipes { recipes, suggestion } => {
                assert_eq!(recipes, vec![s("bild"), s("xyz")]);
                assert_eq!(suggestion, Some(Suggestion { name: s("build") }));
            }
            other => panic!("unexpected error: {other:?}"),
        },
        other => panic!("unexpected outcome: {other:?}"),
    }
}

#[test]
fn empty_table_fails_distinctly() {
    let table = Table { recipes: vec![] };
    match plan(&table, &vec![], &empty_scope(), &vec![], &vec![], 0) {
        PlanStep::PFail { error } => assert!(matches!(error, RunError::NoRecipes)),
        other => panic!("unexpected outcome: {other:?}"),
    }
}

#[test]
fn dependency_arguments_evaluated_in_caller_scope() {
    // caller(v) depends on callee(v): the dependency argument is the
    // caller's bound parameter.
    let callee = Recipe {
        name: s("callee"),
        parameters: vec![param("w", ParamKind::Singular, None)],
        dependencies: vec![],
        lines: vec![],
        quiet: false,
        working_directory: None,
    };
    let caller = Recipe {
        name: s("caller"),
        parameters: vec![param("v", ParamKind::Singular, None)],
        dependencies: vec![Dependency {
            recipe: s("callee"),
            arguments: vec![Expression::Variable(s("v"))],
        }],
        lines: vec![],
        quiet: false,
        working_directory: None,
    };
    let table = Table {
        recipes: vec![caller, callee],
    };
    let requests = vec![Request {
        name: s("caller"),
        arguments: vec![s("42")],
    }];
    match plan(&table, &requests, &empty_scope(), &vec![], &vec![], 0) {
        PlanStep::PDone { plan: p, .. } => {
            assert_eq!(plan_names(&p), vec![s("callee"), s("caller")]);
            assert_eq!(p[0].arguments, vec![s("42")]);
        }
        other => panic!("unexpected outcome: {other:?}"),
    }
}

#[test]
fn variadic_arity_bounds() {
    // (a, b, *rest): rejects 1, accepts 2, 3, 5.
    let r = Recipe {
        name: s("t"),
        parameters: vec![
            param("a", ParamKind::Singular, None),
            param("b", ParamKind::Singular, None),
            param("rest", ParamKind::ZeroOrMore, None),
        ],
        dependencies: vec![],
        lines: vec![],
        quiet: false,
        working_directory: None,
    };
    let one = bind(&r, &vec![s("1")], false, empty_scope(), &vec![], &vec![], 0);
    match one {
        BindOutcome::BindFailed { error } => match error {
            RunError::ArgumentCountMismatch { found, min, .. } => {
                assert_eq!(found, 1);
                assert_eq!(min, 2);
            }
            other => panic!("unexpected error: {other:?}"),
        },
        other => panic!("unexpected outcome: {other:?}"),
    }
    for n in [2usize, 3, 5] {
        let args: Vec<String> = (0..n).map(|i| i.to_string()).collect();
        let out = bind(&r, &args, false, empty_scope(), &vec![], &vec![], 0);
        assert!(matches!(out, BindOutcome::Bound { .. }), "rejected {n} args");
    }
}

#[test]
fn defaulted_arity_bounds() {
    // (a, b="x"): accepts 1 or 2, rejects 0 and 3.
    let r = Recipe {
        name: s("t"),
        parameters: vec![
            param("a", ParamKind::Singular, None),
            param("b", ParamKind::Singular, Some("x")),
        ],
        dependencies: vec![],
        lines: vec![],
        quiet: false,
        working_directory: None,
    };
    for n in [1usize, 2] {
        let args: Vec<String> = (0..n).map(|i| i.to_string()).collect();
        let out = bind(&r, &args, false, empty_scope(), &vec![], &vec![], 0);
        match out {
            BindOutcome::Bound { scope, .. } => {
                let layer = scope.layers.last().unwrap();
                assert_eq!(layer[0].name, "a");
                if n == 1 {
                    assert_eq!(layer[1].value, "x");
                } else {
                    assert_eq!(layer[1].value, "1");
                }
            }
            other => panic!("rejected {n} args: {other:?}"),
        }
    }
    for n in [0usize, 3] {
        let args: Vec<String> = (0..n).map(|i| i.to_string()).collect();
        let out = bind(&r, &args, false, empty_scope(), &vec![], &vec![], 0);
        assert!(
            matches!(
                out,
                BindOutcome::BindFailed {
                    error: RunError::ArgumentCountMismatch { .. }
                }
            ),
            "accepted {n} args"
        );
    }
}

#[test]
fn variadic_parameter_joins_remaining_arguments() {
    let r = Recipe {
        name: s("t"),
        parameters: vec![
            param("a", ParamKind::Singular, None),
            param("rest", ParamKind::OneOrMore, None),
        ],
        dependencies: vec![],
        lines: vec![],
        quiet: false,
        working_directory: None,
    };
    let out = bind(
        &r,
        &vec![s("x"), s("y"), s("z")],
        false,
        empty_scope(),
        &vec![],
        &vec![],
        0,
    );
    match out {
        BindOutcome::Bound { scope, .. } => {
            let layer = scope.layers.last().unwrap();
            assert_eq!(layer[1].name, "rest");
            assert_eq!(layer[1].value, "y z");
        }
        other => panic!("unexpected outcome: {other:?}"),
    }
}

#[test]
fn default_recipe_needs_arguments_not_arity_mismatch() {
    let r = Recipe {
        name: s("deploy"),
        parameters: vec![param("target", ParamKind::Singular, None)],
        dependencies: vec![],
        lines: vec![],
        quiet: false,
        working_directory: None,
    };
    let out = bind(&r, &vec![], true, empty_scope(), &vec![], &vec![], 0);
    match out {
        BindOutcome::BindFailed { error } => {
            assert!(matches!(
                error,
                RunError::DefaultRecipeRequiresArguments { .. }
            ));
            assert!(!matches!(error, RunError::ArgumentCountMismatch { .. }));
        }
        other => panic!("unexpected outcome: {other:?}"),
    }
    // The same holds through planning with no recipe named.
    let table = Table { recipes: vec![r] };
    match plan(&table, &vec![], &empty_scope(), &vec![], &vec![], 0) {
        PlanStep::PFail { error } => {
            assert!(matches!(
                error,
                RunError::DefaultRecipeRequiresArguments { .. }
            ));
        }
        other => panic!("unexpected outcome: {other:?}"),
    }
}

#[test]
fn literal_expressions_round_trip_exactly() {
    let e = Expression::Concat(vec![
        Expression::Literal(s("echo  ")),
        Expression::Literal(s("hi   world ")),
    ]);
    match evaluate(&e, &empty_scope(), &vec![], &vec![], 0) {
        EvalStep::Finished { text, used } => {
            assert_eq!(text, "echo  hi   world ");
            assert_eq!(used, 0);
        }
        other => panic!("unexpected outcome: {other:?}"),
    }
}

#[test]
fn misspelled_variable_suggests_the_real_one() {
    let scope = Scope {
        layers: vec![vec![Binding {
            name: s("variable"),
            value: s("v"),
        }]],
    };
    let e = Expression::Variable(s("varaible"));
    match evaluate(&e, &scope, &vec![], &vec![], 0) {
        EvalStep::Failed { error } => match error {
            RunError::EvalUnknownVariable { variable, suggestion } => {
                assert_eq!(variable, "varaible");
                assert_eq!(suggestion, Some(Suggestion { name: s("variable") }));
            }
            other => panic!("unexpected error: {other:?}"),
        },
        other => panic!("unexpected outcome: {other:?}"),
    }
}

#[test]
fn distant_names_are_not_suggested() {
    assert_eq!(suggest("zzzz", &vec![s("alpha"), s("beta")]), None);
    assert_eq!(
        suggest("alpho", &vec![s("alpha"), s("beta")]),
        Some(Suggestion { name: s("alpha") })
    );
}

#[test]
fn variable_lookup_is_innermost_first() {
    let scope = Scope {
        layers: vec![
            vec![Binding {
                name: s("x"),
                value: s("outer"),
            }],
            vec![Binding {
                name: s("x"),
                value: s("inner"),
            }],
        ],
    };
    match evaluate(&Expression::Variable(s("x")), &scope, &vec![], &vec![], 0) {
        EvalStep::Finished { text, .. } => assert_eq!(text, "inner"),
        other => panic!("unexpected outcome: {other:?}"),
    }
}

#[test]
fn backtick_pends_then_finishes() {
    let e = Expression::Backtick(Box::new(Expression::Literal(s("echo hi"))));
    match evaluate(&e, &empty_scope(), &vec![], &vec![], 0) {
        EvalStep::Pending { command, used } => {
            assert_eq!(command, "echo hi");
            assert_eq!(used, 0);
        }
        other => panic!("unexpected outcome: {other:?}"),
    }
    let log = vec![BacktickOutcome::Launched {
        code: Some(0),
        signal: None,
        stdout: Ok(s("hi\n")),
    }];
    match evaluate(&e, &empty_scope(), &vec![], &log, 0) {
        EvalStep::Finished { text, used } => {
            assert_eq!(text, "hi");
            assert_eq!(used, 1);
        }
        other => panic!("unexpected outcome: {other:?}"),
    }
}

#[test]
fn backtick_nonzero_exit_is_classified() {
    let e = Expression::Backtick(Box::new(Expression::Literal(s("false"))));
    let log = vec![BacktickOutcome::Launched {
        code: Some(2),
        signal: None,
        stdout: Ok(s("")),
    }];
    match evaluate(&e, &empty_scope(), &vec![], &log, 0) {
        EvalStep::Failed { error } => {
            assert_eq!(error.render_message(), "Backtick failed with exit code 2");
            assert_eq!(error.code(), Some(2));
        }
        other => panic!("unexpected outcome: {other:?}"),
    }
}

#[test]
fn trailing_newlines_stripped_others_kept() {
    assert_eq!(strip_trailing_newlines("hi\n"), "hi");
    assert_eq!(strip_trailing_newlines("hi\r\n"), "hi");
    assert_eq!(strip_trailing_newlines("a\rb\n\n\r\n"), "a\rb");
    assert_eq!(strip_trailing_newlines("a\nb"), "a\nb");
    assert_eq!(strip_trailing_newlines(""), "");
    match classify_backtick(&BacktickOutcome::Launched {
        code: Some(0),
        signal: None,
        stdout: Ok(s("out\r\n")),
    }) {
        Ok(t) => assert_eq!(t, "out"),
        Err(e) => panic!("unexpected error: {e:?}"),
    }
    match classify_backtick(&BacktickOutcome::LaunchFailed {
        io: IoInfo {
            kind: IoKind::NotFound,
            message: s("gone"),
        },
    }) {
        Err(OutputError::Io(io)) => assert_eq!(io.message, "gone"),
        other => panic!("unexpected outcome: {other:?}"),
    }
}

#[test]
fn env_var_function_reads_environment_mapping() {
    let env = vec![Binding {
        name: s("TARGET"),
        value: s("prod"),
    }];
    let e = Expression::Call {
        function: s("env_var"),
        arguments: vec![Expression::Literal(s("TARGET"))],
    };
    match evaluate(&e, &empty_scope(), &env, &vec![], 0) {
        EvalStep::Finished { text, .. } => assert_eq!(text, "prod"),
        other => panic!("unexpected outcome: {other:?}"),
    }
    let e = Expression::Call {
        function: s("env_var"),
        arguments: vec![Expression::Literal(s("NOPE"))],
    };
    match evaluate(&e, &empty_scope(), &env, &vec![], 0) {
        EvalStep::Failed { error } => {
            assert_eq!(
                error.render_message(),
                "Call to function `env_var` failed: environment variable `NOPE` not set"
            );
        }
        other => panic!("unexpected outcome: {other:?}"),
    }
    let e = Expression::Call {
        function: s("env_var_or_default"),
        arguments: vec![
            Expression::Literal(s("NOPE")),
            Expression::Literal(s("fallback")),
        ],
    };
    match evaluate(&e, &empty_scope(), &env, &vec![], 0) {
        EvalStep::Finished { text, .. } => assert_eq!(text, "fallback"),
        other => panic!("unexpected outcome: {other:?}"),
    }
}

#[test]
fn shebang_recipe_produces_script_and_invocation() {
    let sh = parse_shebang("#!/usr/bin/env bash").expect("directive expected");
    assert_eq!(sh.command, "/usr/bin/env");
    assert_eq!(sh.argument, Some(s("bash")));
    let content = script_content(&vec![s("echo hi")]);
    assert_eq!(content, "echo hi");
    let argv = script_command(&sh, &s("/tmp/just-script"));
    assert_eq!(argv, vec![s("/usr/bin/env"), s("bash"), s("/tmp/just-script")]);
}

#[test]
fn shebang_without_argument() {
    let sh = parse_shebang("#!/bin/sh").expect("directive expected");
    assert_eq!(sh.command, "/bin/sh");
    assert_eq!(sh.argument, None);
    assert_eq!(parse_shebang("echo hi"), None);
    let argv = script_command(&sh, &s("/tmp/f"));
    assert_eq!(argv, vec![s("/bin/sh"), s("/tmp/f")]);
}

#[test]
fn line_exit_code_reports_recipe_and_line() {
    let r = classify_line_outcome(&s("r"), Some(1), false, &SpawnOutcome::Exited { code: 3 });
    match r {
        Err(e) => {
            assert_eq!(e.code(), Some(3));
            assert_eq!(
                e.render_message(),
                "Recipe `r` failed on line 1 with exit code 3"
            );
        }
        Ok(()) => panic!("expected a failure"),
    }
    assert!(classify_line_outcome(&s("r"), Some(1), false, &SpawnOutcome::Exited { code: 0 })
        .is_ok());
    assert!(classify_line_outcome(&s("r"), Some(1), true, &SpawnOutcome::Exited { code: 3 })
        .is_ok());
}

#[test]
fn script_outcome_has_no_line_number() {
    let r = classify_script_outcome(&s("r"), &SpawnOutcome::Exited { code: 5 });
    match r {
        Err(e) => assert_eq!(e.render_message(), "Recipe `r` failed with exit code 5"),
        Ok(()) => panic!("expected a failure"),
    }
    let r = classify_script_outcome(&s("r"), &SpawnOutcome::Signaled { signal: 9 });
    match r {
        Err(e) => assert_eq!(e.render_message(), "Recipe `r` was terminated by signal 9"),
        Ok(()) => panic!("expected a failure"),
    }
    let r = classify_script_outcome(&s("r"), &SpawnOutcome::UnknownTermination);
    match r {
        Err(e) => assert_eq!(e.render_message(), "Recipe `r` failed for an unknown reason"),
        Ok(()) => panic!("expected a failure"),
    }
}

#[test]
fn lazy_default_sees_earlier_parameters() {
    // b defaults to the expression `a`, bound after a.
    let r = Recipe {
        name: s("t"),
        parameters: vec![
            param("a", ParamKind::Singular, None),
            Parameter {
                name: s("b"),
                kind: ParamKind::Singular,
                default: Some(Expression::Variable(s("a"))),
            },
        ],
        dependencies: vec![],
        lines: vec![],
        quiet: false,
        working_directory: None,
    };
    let out = bind(&r, &vec![s("42")], false, empty_scope(), &vec![], &vec![], 0);
    match out {
        BindOutcome::Bound { scope, .. } => {
            let layer = scope.layers.last().unwrap();
            assert_eq!(layer[1].name, "b");
            assert_eq!(layer[1].value, "42");
        }
        other => panic!("unexpected outcome: {other:?}"),
    }
}

#[test]
fn script_body_drops_only_the_directive() {
    let lines = vec![s("#!/bin/sh"), s("echo hi"), s("echo bye")];
    assert_eq!(script_body(&lines), vec![s("echo hi"), s("echo bye")]);
    assert_eq!(script_body(&vec![s("#!/bin/sh")]), Vec::<String>::new());
    assert_eq!(script_body(&Vec::new()), Vec::<String>::new());
}

#[test]
fn echo_is_suppressed_by_either_quiet_flag() {
    assert!(should_echo(false, false));
    assert!(!should_echo(true, false));
    assert!(!should_echo(false, true));
    assert!(!should_echo(true, true));
}
