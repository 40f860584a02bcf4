use recipe_engine::error::{
    format_cmd, IoInfo, IoKind, OutputError, ProcStatus, RunError, SourceSnapshot, Suggestion,
};
use recipe_engine::expr::Expression;
use recipe_engine::recipe::{ParamKind, Parameter};
use recipe_engine::strutil::{i32_to_string, u64_to_string, usize_to_string};

fn s(t: &str) -> String {
    t.to_string()
}

#[test]
fn decimal_rendering() {
    assert_eq!(u64_to_string(0), "0");
    assert_eq!(u64_to_string(1234), "1234");
    assert_eq!(usize_to_string(42), "42");
    assert_eq!(i32_to_string(-5), "-5");
    assert_eq!(i32_to_string(2147483647), "2147483647");
    assert_eq!(i32_to_string(-2147483648), "-2147483648");
}

#[test]
fn format_cmd_ticks_each_part() {
    assert_eq!(
        format_cmd(&s("echo"), &vec![s("a"), s("b c")]),
        "`echo` `a` `b c`"
    );
    assert_eq!(format_cmd(&s("ls"), &vec![]), "`ls`");
}

#[test]
fn code_failure_message_with_line() {
    let e = RunError::Code {
        recipe: s("r"),
        line_number: Some(1),
        code: 3,
        print_message: true,
    };
    assert_eq!(
        e.render_message(),
        "Recipe `r` failed on line 1 with exit code 3"
    );
    assert_eq!(e.code(), Some(3));
    assert!(e.print_message());
}

#[test]
fn code_passthrough_stays_silent() {
    let e = RunError::Code {
        recipe: s("r"),
        line_number: None,
        code: 7,
        print_message: false,
    };
    assert_eq!(e.render_message(), "Recipe `r` failed with exit code 7");
    assert!(!e.print_message());
}

#[test]
fn backtick_errors_render_exactly() {
    let e = RunError::Backtick {
        context: None,
        output_error: OutputError::Code(2),
    };
    assert_eq!(e.render_message(), "Backtick failed with exit code 2");
    assert_eq!(e.code(), Some(2));
    let e = RunError::Backtick {
        context: None,
        output_error: OutputError::Signal(9),
    };
    assert_eq!(e.render_message(), "Backtick was terminated by signal 9");
    let e = RunError::Backtick {
        context: None,
        output_error: OutputError::Io(IoInfo {
            kind: IoKind::NotFound,
            message: s("no such file"),
        }),
    };
    assert_eq!(
        e.render_message(),
        "Backtick could not be run because just could not find the shell:\nno such file"
    );
    let e = RunError::Backtick {
        context: None,
        output_error: OutputError::Utf8(s("bad byte")),
    };
    assert_eq!(
        e.render_message(),
        "Backtick succeeded but stdout was not utf8: bad byte"
    );
}

#[test]
fn signal_and_unknown_messages() {
    let e = RunError::Signal {
        recipe: s("build"),
        line_number: Some(4),
        signal: 15,
    };
    assert_eq!(
        e.render_message(),
        "Recipe `build` was terminated on line 4 by signal 15"
    );
    let e = RunError::Unknown {
        recipe: s("build"),
        line_number: None,
    };
    assert_eq!(e.render_message(), "Recipe `build` failed for an unknown reason");
}

#[test]
fn shell_launch_failures_by_kind() {
    let e = RunError::Io {
        recipe: s("r"),
        io_error: IoInfo {
            kind: IoKind::PermissionDenied,
            message: s("denied"),
        },
    };
    assert_eq!(
        e.render_message(),
        "Recipe `r` could not be run because just could not run the shell: denied"
    );
}

#[test]
fn tmpdir_io_message() {
    let e = RunError::TmpdirIo {
        recipe: s("r"),
        io_error: IoInfo {
            kind: IoKind::Other,
            message: s("disk full"),
        },
    };
    assert_eq!(
        e.render_message(),
        "Recipe `r` could not be run because of an IO error while trying to create a temporary directory or write a file to that directory`:disk full"
    );
}

#[test]
fn internal_message_names_the_tracker() {
    let e = RunError::Internal { message: s("oops") };
    assert_eq!(
        e.render_message(),
        "Internal runtime error, this may indicate a bug in just: oops consider filing an issue: https://github.com/casey/just/issues/new"
    );
}

#[test]
fn chooser_and_editor_statuses() {
    let e = RunError::ChooserStatus {
        chooser: s("fzf"),
        status: ProcStatus::Code(1),
    };
    assert_eq!(e.render_message(), "Chooser `fzf` failed: exit status: 1");
    assert_eq!(e.code(), Some(1));
    let e = RunError::EditorStatus {
        editor: s("vim"),
        status: ProcStatus::Signal(9),
    };
    assert_eq!(e.render_message(), "Editor `vim` failed: signal: 9");
    assert_eq!(e.code(), None);
}

#[test]
fn command_invoke_and_status() {
    let io = IoInfo {
        kind: IoKind::NotFound,
        message: s("missing"),
    };
    let e = RunError::CommandInvoke {
        binary: s("git"),
        arguments: vec![s("status")],
        io_error: io,
    };
    assert_eq!(e.render_message(), "Failed to invoke `git` `status`: missing");
    let e = RunError::CommandStatus {
        binary: s("git"),
        arguments: vec![s("push")],
        status: ProcStatus::Code(128),
    };
    assert_eq!(
        e.render_message(),
        "Command `git` `push` failed: exit status: 128"
    );
}

#[test]
fn unknown_overrides_pluralises() {
    let e = RunError::UnknownOverrides {
        overrides: vec![s("a"), s("b")],
    };
    assert_eq!(
        e.render_message(),
        "Variables `a` and `b` overridden on the command line but not present in justfile"
    );
    let e = RunError::UnknownOverrides {
        overrides: vec![s("a")],
    };
    assert_eq!(
        e.render_message(),
        "Variable `a` overridden on the command line but not present in justfile"
    );
}

#[test]
fn unknown_recipes_with_suggestion() {
    let e = RunError::UnknownRecipes {
        recipes: vec![s("bild"), s("xyz")],
        suggestion: Some(Suggestion { name: s("build") }),
    };
    assert_eq!(
        e.render_message(),
        "Justfile does not contain recipes `bild` or `xyz`.\nDid you mean `build`?"
    );
    let e = RunError::UnknownRecipes {
        recipes: vec![s("one"), s("two"), s("three")],
        suggestion: None,
    };
    assert_eq!(
        e.render_message(),
        "Justfile does not contain recipes `one`, `two`, or `three`."
    );
}

#[test]
fn unknown_variable_with_suggestion_message() {
    let e = RunError::EvalUnknownVariable {
        variable: s("varaible"),
        suggestion: Some(Suggestion { name: s("variable") }),
    };
    assert_eq!(
        e.render_message(),
        "Justfile does not contain variable `varaible`.\nDid you mean `variable`?"
    );
}

#[test]
fn usage_line_for_arity_mismatch() {
    let e = RunError::ArgumentCountMismatch {
        recipe: s("t"),
        parameters: vec![Parameter {
            name: s("x"),
            kind: ParamKind::Singular,
            default: None,
        }],
        found: 2,
        min: 1,
        max: 1,
    };
    assert_eq!(
        e.render_message(),
        "Recipe `t` got 2 arguments but only takes 1"
    );
    assert_eq!(
        e.render(false),
        "error: Recipe `t` got 2 arguments but only takes 1\nusage:\n    just t x"
    );
}

#[test]
fn usage_line_shows_markers_and_defaults() {
    let e = RunError::ArgumentCountMismatch {
        recipe: s("t"),
        parameters: vec![
            Parameter {
                name: s("a"),
                kind: ParamKind::Singular,
                default: None,
            },
            Parameter {
                name: s("b"),
                kind: ParamKind::Singular,
                default: Some(Expression::Literal(s("x"))),
            },
            Parameter {
                name: s("rest"),
                kind: ParamKind::ZeroOrMore,
                default: None,
            },
        ],
        found: 0,
        min: 1,
        max: usize::MAX,
    };
    assert_eq!(
        e.render_message(),
        "Recipe `t` got 0 arguments but takes at least 1"
    );
    assert_eq!(
        e.render(false),
        "error: Recipe `t` got 0 arguments but takes at least 1\nusage:\n    just t a b='x' *rest"
    );
}

#[test]
fn source_excerpt_is_appended() {
    let e = RunError::FunctionCall {
        function: s("env_var"),
        context: Some(SourceSnapshot {
            line: 3,
            column: 7,
            text: s("env_var(x)"),
        }),
        message: s("boom"),
    };
    assert_eq!(
        e.render(false),
        "error: Call to function `env_var` failed: boom\n --> line 3, column 7: env_var(x)"
    );
}

#[test]
fn colored_render_paints_prefix_and_body() {
    let e = RunError::NoRecipes;
    assert_eq!(
        e.render(true),
        "\u{1b}[1;31merror\u{1b}[0m: \u{1b}[1mJustfile contains no recipes.\u{1b}[0m"
    );
    assert_eq!(e.render(false), "error: Justfile contains no recipes.");
}

#[test]
fn circular_messages() {
    let e = RunError::CircularDependency {
        recipe: s("omega"),
        cycle: vec![s("omega"), s("omega")],
    };
    assert_eq!(
        e.render_message(),
        "Recipe `omega` depends on itself: omega -> omega"
    );
    let e = RunError::CircularInclusion {
        current: s("a.just"),
        nested: s("b.just"),
    };
    assert_eq!(
        e.render_message(),
        "Inclusion of `b.just` in `a.just` is circular"
    );
}

#[test]
fn default_recipe_requires_arguments_message() {
    let e = RunError::DefaultRecipeRequiresArguments {
        recipe: s("deploy"),
        min_arguments: 1,
    };
    assert_eq!(
        e.render_message(),
        "Recipe `deploy` cannot be used as default recipe since it requires at least 1 argument."
    );
}

#[test]
fn outside_error_wrappers_produce_their_variants() {
    let bad = serde_json::from_str::<serde_json::Value>("{not json").unwrap_err();
    let e = recipe_engine::outside::from_serde_json(&bad);
    assert!(matches!(e, RunError::DumpJson { .. }));
    assert!(e.render_message().starts_with("Failed to dump JSON to stdout: "));

    let bad = regex::Regex::new("(").unwrap_err();
    let e = recipe_engine::outside::from_regex(&bad);
    assert!(matches!(e, RunError::RegexCompile { .. }));
    assert!(!e.render_message().is_empty());

    let bad = dotenvy::from_path(std::path::Path::new("/nonexistent/.env")).unwrap_err();
    let e = recipe_engine::outside::from_dotenv(&bad);
    assert!(matches!(e, RunError::Dotenv { .. }));
    assert!(e
        .render_message()
        .starts_with("Failed to load environment file: "));
}

#[test]
fn unstable_and_dump_messages() {
    let e = RunError::Unstable {
        message: s("The chooser is unstable."),
    };
    assert_eq!(
        e.render_message(),
        "The chooser is unstable. Invoke `just` with the `--unstable` flag to enable unstable features."
    );
    let e = RunError::DumpJson {
        message: s("broken pipe"),
    };
    assert_eq!(e.render_message(), "Failed to dump JSON to stdout: broken pipe");
}
