//! The process invocation layer's decisions, kept apart from the
//! subprocess calls themselves: recognising an interpreter directive,
//! assembling the script payload and its invocation line, and
//! classifying every observed subprocess outcome into the exact error
//! the catalog reports.

use vstd::prelude::*;
use crate::error::{IoInfo, RunError};

verus! {

/// An interpreter directive: the interpreter command and its one
/// optional argument.
#[derive(Debug, Clone, PartialEq, Eq)]
pub struct Shebang {
    pub command: String,
    pub argument: Option<String>,
}

/// What the driver observed of one spawned recipe subprocess.
#[derive(Debug, Clone, PartialEq, Eq)]
pub enum SpawnOutcome {
    /// It exited with this code.
    Exited { code: i32 },
    /// It was terminated by this signal.
    Signaled { signal: i32 },
    /// The host reported neither an exit code nor a signal.
    UnknownTermination,
    /// The shell or interpreter could not be launched.
    SpawnFailed { io: IoInfo },
}

/// The least index at or after `from` holding a space, or the length.
pub open spec fn first_space(s: Seq<char>, from: int) -> int
    decreases s.len() - from,
{
    if from < 0 || from >= s.len() {
        s.len() as int
    } else if s[from] == ' ' {
        from
    } else {
        first_space(s, from + 1)
    }
}

/// The directive a body's first line carries, if any: after `#!`, the
/// text up to the first space is the interpreter command, and anything
/// after that space is its argument.
pub open spec fn shebang_spec(line: Seq<char>) -> Option<(Seq<char>, Option<Seq<char>>)> {
    if line.len() >= 2 && line[0] == '#' && line[1] == '!' {
        let rest = line.skip(2);
        let cut = first_space(rest, 0);
        if cut < rest.len() && cut + 1 < rest.len() {
            Option::Some((rest.take(cut), Option::Some(rest.skip(cut + 1))))
        } else {
            Option::Some((rest.take(cut), Option::None))
        }
    } else {
        Option::None
    }
}

/// The rendered body lines joined by newlines: the script payload,
/// holding exactly the lines after the directive.
pub open spec fn script_text(lines: Seq<String>, n: int) -> Seq<char>
    decreases n,
{
    if n <= 0 || n > lines.len() {
        Seq::<char>::empty()
    } else if n == 1 {
        lines[0]@
    } else {
        script_text(lines, n - 1) + "\n"@ + lines[n - 1]@
    }
}

/// Recognises an interpreter directive on a body's first line, exactly
/// as `shebang_spec` states.
#[verifier::loop_isolation(false)]
pub fn parse_shebang(line: &str) -> (r: Option<Shebang>)
    ensures
        match r {
            Option::Some(sh) => shebang_spec(line@) matches Option::Some(g) && sh.command@ == g.0
                && (match sh.argument {
                Option::Some(a) => g.1 matches Option::Some(ga) && a@ == ga,
                Option::None => g.1 is None,
            }),
            Option::None => shebang_spec(line@) is None,
        },
{
    let n = line.unicode_len();
    if n < 2 {
        return Option::None;
    }
    if !(line.get_char(0) == '#' && line.get_char(1) == '!') {
        return Option::None;
    }
    let ghost rest = line@.skip(2);
    let mut cut: usize = 2;
    while cut < n && line.get_char(cut) != ' '
        invariant
            2 <= cut <= n,
            first_space(rest, 0) == first_space(rest, cut - 2),
        decreases n - cut,
    {
        proof {
            assert(rest[cut - 2] == line@[cut as int]);
        }
        cut = cut + 1;
    }
    proof {
        assert(cut < n ==> rest[cut - 2] == line@[cut as int]);
        assert(first_space(rest, 0) == cut - 2);
    }
    let command = line.substring_char(2, cut).to_owned();
    proof {
        assert(command@ =~= rest.take(cut - 2));
    }
    if cut < n - 1 {
        let argument = line.substring_char(cut + 1, n).to_owned();
        proof {
            assert(argument@ =~= rest.skip(cut - 2 + 1));
        }
        Option::Some(Shebang { command, argument: Option::Some(argument) })
    } else {
        Option::Some(Shebang { command, argument: Option::None })
    }
}

/// Joins the rendered body lines into the script payload.
#[verifier::loop_isolation(false)]
pub fn script_content(lines: &Vec<String>) -> (r: String)
    ensures
        r@ == script_text(lines@, lines@.len() as int),
{
    let mut s = String::new();
    let mut i: usize = 0;
    while i < lines.len()
        invariant
            i <= lines@.len(),
            s@ == script_text(lines@, i as int),
        decreases lines@.len() - i,
    {
        if i > 0 {
            s.append("\n");
        }
        s.append(lines[i].as_str());
        proof {
            assert(s@ =~= script_text(lines@, i + 1));
        }
        i = i + 1;
    }
    s
}

/// The argument vector that invokes a script: the interpreter command,
/// its optional argument, and the script file's path appended last.
pub fn script_command(shebang: &Shebang, path: &String) -> (r: Vec<String>)
    ensures
        shebang.argument is Some ==> r@.len() == 3 && r@[0]@ == shebang.command@ && r@[1]@
            == shebang.argument->0@ && r@[2]@ == path@,
        shebang.argument is None ==> r@.len() == 2 && r@[0]@ == shebang.command@ && r@[1]@
            == path@,
{
    let mut out: Vec<String> = Vec::new();
    out.push(shebang.command.clone());
    match &shebang.argument {
        Option::Some(a) => out.push(a.clone()),
        Option::None => {},
    }
    out.push(path.clone());
    out
}


/// Whether a line's text is echoed before it runs: neither the line
/// nor its recipe asks for quiet.
pub fn should_echo(line_quiet: bool, recipe_quiet: bool) -> (r: bool)
    ensures
        r == (!line_quiet && !recipe_quiet),
{
    !line_quiet && !recipe_quiet
}

/// The lines written into the script: everything after the directive
/// line, which is consumed as the directive and never duplicated.
pub fn script_body(lines: &Vec<String>) -> (r: Vec<String>)
    ensures
        lines@.len() == 0 ==> r@ == Seq::<String>::empty(),
        lines@.len() > 0 ==> r@ == lines@.skip(1),
{
    let mut out: Vec<String> = Vec::new();
    if lines.len() == 0 {
        return out;
    }
    proof {
        assert(out@ =~= lines@.subrange(1, 1));
    }
    let mut i: usize = 1;
    while i < lines.len()
        invariant
            1 <= i <= lines@.len(),
            out@ == lines@.subrange(1, i as int),
        decreases lines@.len() - i,
    {
        out.push(lines[i].clone());
        proof {
            assert(out@ =~= lines@.subrange(1, i + 1));
        }
        i = i + 1;
    }
    proof {
        assert(out@ =~= lines@.skip(1));
    }
    out
}

/// Classifies a line-mode subprocess outcome: success on exit code
/// zero, or when the line ignores its exit status; otherwise the exact
/// failure, carrying the recipe name and the line's ordinal.
pub fn classify_line_outcome(
    recipe: &String,
    line_number: Option<usize>,
    infallible: bool,
    outcome: &SpawnOutcome,
) -> (r: Result<(), RunError>)
    ensures
        match *outcome {
            SpawnOutcome::Exited { code } => if code == 0 || infallible {
                r is Ok
            } else {
                r matches Result::Err(e) && e matches RunError::Code {
                    recipe: rn,
                    line_number: ln,
                    code: c,
                    print_message: pm,
                } && rn@ == recipe@ && ln == line_number && c == code && pm
            },
            SpawnOutcome::Signaled { signal } => r matches Result::Err(e) && e matches
                RunError::Signal { recipe: rn, line_number: ln, signal: sg } && rn@ == recipe@
                && ln == line_number && sg == signal,
            SpawnOutcome::UnknownTermination => r matches Result::Err(e) && e matches
                RunError::Unknown { recipe: rn, line_number: ln } && rn@ == recipe@ && ln
                == line_number,
            SpawnOutcome::SpawnFailed { ref io } => r matches Result::Err(e) && e matches
                RunError::Io { recipe: rn, io_error: ie } && rn@ == recipe@ && ie == *io,
        },
{
    match outcome {
        SpawnOutcome::Exited { code } => {
            if *code == 0 || infallible {
                Result::Ok(())
            } else {
                Result::Err(
                    RunError::Code {
                        recipe: recipe.clone(),
                        line_number,
                        code: *code,
                        print_message: true,
                    },
                )
            }
        },
        SpawnOutcome::Signaled { signal } => Result::Err(
            RunError::Signal { recipe: recipe.clone(), line_number, signal: *signal },
        ),
        SpawnOutcome::UnknownTermination => Result::Err(
            RunError::Unknown { recipe: recipe.clone(), line_number },
        ),
        SpawnOutcome::SpawnFailed { io } => Result::Err(
            RunError::Io {
                recipe: recipe.clone(),
                io_error: IoInfo { kind: io.kind, message: io.message.clone() },
            },
        ),
    }
}

/// Classifies a script-mode outcome: the script runs as one opaque
/// unit, so no line number can be attributed.
pub fn classify_script_outcome(recipe: &String, outcome: &SpawnOutcome) -> (r: Result<
    (),
    RunError,
>)
    ensures
        match *outcome {
            SpawnOutcome::Exited { code } => if code == 0 {
                r is Ok
            } else {
                r matches Result::Err(e) && e matches RunError::Code {
                    recipe: rn,
                    line_number: ln,
                    code: c,
                    print_message: pm,
                } && rn@ == recipe@ && ln is None && c == code && pm
            },
            SpawnOutcome::Signaled { signal } => r matches Result::Err(e) && e matches
                RunError::Signal { recipe: rn, line_number: ln, signal: sg } && rn@ == recipe@
                && ln is None && sg == signal,
            SpawnOutcome::UnknownTermination => r matches Result::Err(e) && e matches
                RunError::Unknown { recipe: rn, line_number: ln } && rn@ == recipe@ && ln is None,
            SpawnOutcome::SpawnFailed { ref io } => r matches Result::Err(e) && e matches
                RunError::Io { recipe: rn, io_error: ie } && rn@ == recipe@ && ie == *io,
        },
{
    classify_line_outcome(recipe, Option::None, false, outcome)
}

} // verus!
