use recipe_engine::error::{IoInfo, IoKind, OutputError, ProcStatus, RunError, SourceSnapshot};

fn s(t: &str) -> String {
    t.to_string()
}

fn io(kind: IoKind, message: &str) -> IoInfo {
    IoInfo {
        kind,
        message: s(message),
    }
}

#[test]
fn chooser_errors() {
    let e = RunError::ChooserInvoke {
        shell_binary: s("sh"),
        shell_arguments: s("-cu"),
        chooser: s("fzf"),
        io_error: io(IoKind::NotFound, "gone"),
    };
    assert_eq!(
        e.render_message(),
        "Chooser `sh -cu fzf` invocation failed: gone"
    );
    let e = RunError::ChooserRead {
        chooser: s("fzf"),
        io_error: io(IoKind::Other, "pipe"),
    };
    assert_eq!(e.render_message(), "Failed to read output from chooser `fzf`: pipe");
    let e = RunError::ChooserWrite {
        chooser: s("fzf"),
        io_error: io(IoKind::Other, "pipe"),
    };
    assert_eq!(e.render_message(), "Failed to write to chooser `fzf`: pipe");
}

#[test]
fn editor_invoke_error() {
    let e = RunError::EditorInvoke {
        editor: s("vim"),
        io_error: io(IoKind::NotFound, "gone"),
    };
    assert_eq!(e.render_message(), "Editor `vim` invocation failed: gone");
}

#[test]
fn load_and_write_errors() {
    let e = RunError::Load {
        path: s("justfile"),
        io_error: io(IoKind::NotFound, "missing"),
    };
    assert_eq!(e.render_message(), "Failed to read justfile at `justfile`: missing");
    let e = RunError::WriteJustfile {
        justfile: s("justfile"),
        io_error: io(IoKind::Other, "full"),
    };
    assert_eq!(e.render_message(), "Failed to write justfile to `justfile`: full");
    let e = RunError::InitExists {
        justfile: s("justfile"),
    };
    assert_eq!(e.render_message(), "Justfile `justfile` already exists");
}

#[test]
fn structural_errors() {
    let e = RunError::InclusionMissingPath {
        file: s("a.just"),
        line: 4,
    };
    assert_eq!(
        e.render_message(),
        "Inclusion directive on line 4 of `a.just` has no argument"
    );
    let e = RunError::InvalidDirective {
        line: s("!nonsense"),
    };
    assert_eq!(e.render_message(), "Invalid directive: !nonsense");
    let e = RunError::NoChoosableRecipes;
    assert_eq!(e.render_message(), "Justfile contains no choosable recipes.");
    let e = RunError::FormatCheckFoundDiff;
    assert_eq!(e.render_message(), "Formatted justfile differs from original.");
}

#[test]
fn collaborator_errors_render_their_message() {
    let e = RunError::Compile {
        message: s("expected name"),
        context: Some(SourceSnapshot {
            line: 2,
            column: 1,
            text: s("??"),
        }),
    };
    assert_eq!(e.render_message(), "expected name");
    assert_eq!(e.render(false), "error: expected name\n --> line 2, column 1: ??");
    let e = RunError::Config {
        message: s("bad flag"),
    };
    assert_eq!(e.render_message(), "bad flag");
    let e = RunError::Search {
        message: s("no justfile found"),
    };
    assert_eq!(e.render_message(), "no justfile found");
    let e = RunError::RegexCompile {
        message: s("unclosed group"),
    };
    assert_eq!(e.render_message(), "unclosed group");
    let e = RunError::Dotenv {
        message: s("bad line"),
    };
    assert_eq!(e.render_message(), "Failed to load environment file: bad line");
}

#[test]
fn shebang_execution_errors() {
    let e = RunError::Shebang {
        recipe: s("r"),
        command: s("/usr/bin/env"),
        argument: Some(s("bash")),
        io_error: io(IoKind::Other, "boom"),
    };
    assert_eq!(
        e.render_message(),
        "Recipe `r` with shebang `#!/usr/bin/env bash` execution error: boom"
    );
    let e = RunError::Shebang {
        recipe: s("r"),
        command: s("/bin/sh"),
        argument: None,
        io_error: io(IoKind::Other, "boom"),
    };
    assert_eq!(
        e.render_message(),
        "Recipe `r` with shebang `#!/bin/sh` execution error: boom"
    );
}

#[test]
fn cygpath_translation_errors() {
    let e = RunError::Cygpath {
        recipe: s("r"),
        output_error: OutputError::Code(1),
    };
    assert_eq!(
        e.render_message(),
        "Cygpath failed with exit code 1 while translating recipe `r` shebang interpreter path"
    );
    let e = RunError::Cygpath {
        recipe: s("r"),
        output_error: OutputError::Io(io(IoKind::NotFound, "gone")),
    };
    assert_eq!(
        e.render_message(),
        "Could not find `cygpath` executable to translate recipe `r` shebang interpreter path:\ngone"
    );
    let e = RunError::Cygpath {
        recipe: s("r"),
        output_error: OutputError::Unknown,
    };
    assert_eq!(
        e.render_message(),
        "Cygpath experienced an unknown failure while translating recipe `r` shebang interpreter path"
    );
}

#[test]
fn backtick_unknown_and_permission_errors() {
    let e = RunError::Backtick {
        context: None,
        output_error: OutputError::Unknown,
    };
    assert_eq!(e.render_message(), "Backtick failed for an unknown reason");
    let e = RunError::Backtick {
        context: None,
        output_error: OutputError::Io(io(IoKind::PermissionDenied, "denied")),
    };
    assert_eq!(
        e.render_message(),
        "Backtick could not be run because just could not run the shell:\ndenied"
    );
    let e = RunError::Backtick {
        context: None,
        output_error: OutputError::Io(io(IoKind::Other, "odd")),
    };
    assert_eq!(
        e.render_message(),
        "Backtick could not be run because of an IO error while launching the shell:\nodd"
    );
}

#[test]
fn unknown_status_renders() {
    let e = RunError::CommandStatus {
        binary: s("tool"),
        arguments: vec![],
        status: ProcStatus::Unknown,
    };
    assert_eq!(e.render_message(), "Command `tool` failed: unknown exit status");
}

#[test]
fn internal_constructor() {
    let e = RunError::internal(s("broken"));
    assert!(matches!(e, RunError::Internal { .. }));
    assert!(e.render_message().contains("broken"));
}

#[test]
fn context_accessor() {
    let snap = SourceSnapshot {
        line: 1,
        column: 2,
        text: s("`cmd`"),
    };
    let e = RunError::Backtick {
        context: Some(snap),
        output_error: OutputError::Code(1),
    };
    let got = e.context().expect("context expected");
    assert_eq!(got.line, 1);
    assert_eq!(got.column, 2);
    assert_eq!(got.text, "`cmd`");
    assert!(RunError::NoRecipes.context().is_none());
}
