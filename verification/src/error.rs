//! The flat error catalog of the execution core, with owned context on
//! every variant, and its rendering: a pure function from error value and
//! color policy to the exact user-visible text, verified character for
//! character.

use vstd::prelude::*;
use crate::expr::unparse_spec;
use crate::recipe::{ParamKind, Parameter};
use crate::strutil::{count_word, dec_digits, dec_int, i32_to_string, ticked, usize_to_string};

verus! {

/// The classification of an IO failure while launching a subprocess,
/// carried beside the platform's own message.
#[derive(Debug, Clone, Copy, PartialEq, Eq)]
pub enum IoKind {
    NotFound,
    PermissionDenied,
    Other,
}

/// An IO failure: its kind and the platform's rendered message.
#[derive(Debug, Clone, PartialEq, Eq)]
pub struct IoInfo {
    pub kind: IoKind,
    pub message: String,
}

/// How a captured subprocess (a backtick, or a path-translation helper)
/// went wrong.
#[derive(Debug, Clone, PartialEq, Eq)]
pub enum OutputError {
    /// It exited with this nonzero code.
    Code(i32),
    /// It was terminated by this signal.
    Signal(i32),
    /// It terminated with neither an exit code nor a signal.
    Unknown,
    /// It could not be launched at all.
    Io(IoInfo),
    /// It succeeded but its standard output was not valid text; the
    /// field carries the decoder's message.
    Utf8(String),
}

/// The observed status of a finished external tool.
#[derive(Debug, Clone, PartialEq, Eq)]
pub enum ProcStatus {
    /// It exited with this code.
    Code(i32),
    /// It was terminated by this signal.
    Signal(i32),
    /// The host reported neither.
    Unknown,
}

/// A snapshot of the source point a failure is attributable to. Line and
/// column are ordinals, counted from one.
#[derive(Debug, Clone, PartialEq, Eq)]
pub struct SourceSnapshot {
    pub line: usize,
    pub column: usize,
    pub text: String,
}

/// A nearest-match name proposed when a referenced name is not found.
#[derive(Debug, Clone, PartialEq, Eq)]
pub struct Suggestion {
    pub name: String,
}

/// Every failure the execution core reports, grouped by origin:
/// input/selection, structure, evaluation, execution, external tools,
/// and infrastructure. Each variant owns its full context.
#[derive(Debug, PartialEq, Eq)]
pub enum RunError {
    ArgumentCountMismatch {
        recipe: String,
        parameters: Vec<Parameter>,
        found: usize,
        min: usize,
        max: usize,
    },
    Backtick { context: Option<SourceSnapshot>, output_error: OutputError },
    ChooserInvoke { shell_binary: String, shell_arguments: String, chooser: String, io_error: IoInfo },
    ChooserRead { chooser: String, io_error: IoInfo },
    ChooserStatus { chooser: String, status: ProcStatus },
    ChooserWrite { chooser: String, io_error: IoInfo },
    /// A recipe reached itself through its own dependency chain. The
    /// catalog this core descends from had a circular error only for
    /// source-file inclusion; recipe cycles get their own variant here,
    /// carrying the offending path through the graph.
    CircularDependency { recipe: String, cycle: Vec<String> },
    CircularInclusion { current: String, nested: String },
    Code { recipe: String, line_number: Option<usize>, code: i32, print_message: bool },
    CommandInvoke { binary: String, arguments: Vec<String>, io_error: IoInfo },
    CommandStatus { binary: String, arguments: Vec<String>, status: ProcStatus },
    Compile { message: String, context: Option<SourceSnapshot> },
    Config { message: String },
    Cygpath { recipe: String, output_error: OutputError },
    DefaultRecipeRequiresArguments { recipe: String, min_arguments: usize },
    Dotenv { message: String },
    DumpJson { message: String },
    EditorInvoke { editor: String, io_error: IoInfo },
    EditorStatus { editor: String, status: ProcStatus },
    EvalUnknownVariable { variable: String, suggestion: Option<Suggestion> },
    FormatCheckFoundDiff,
    FunctionCall { function: String, context: Option<SourceSnapshot>, message: String },
    InclusionMissingPath { file: String, line: usize },
    InitExists { justfile: String },
    Internal { message: String },
    InvalidDirective { line: String },
    Io { recipe: String, io_error: IoInfo },
    Load { path: String, io_error: IoInfo },
    NoChoosableRecipes,
    NoRecipes,
    RegexCompile { message: String },
    Search { message: String },
    Shebang { recipe: String, command: String, argument: Option<String>, io_error: IoInfo },
    Signal { recipe: String, line_number: Option<usize>, signal: i32 },
    TmpdirIo { recipe: String, io_error: IoInfo },
    Unknown { recipe: String, line_number: Option<usize> },
    UnknownOverrides { overrides: Vec<String> },
    UnknownRecipes { recipes: Vec<String>, suggestion: Option<Suggestion> },
    Unstable { message: String },
    WriteJustfile { justfile: String, io_error: IoInfo },
}

/// The rendering of an external tool's status.
pub open spec fn status_text(s: ProcStatus) -> Seq<char> {
    match s {
        ProcStatus::Code(c) => "exit status: "@ + dec_int(c as int),
        ProcStatus::Signal(sig) => "signal: "@ + dec_int(sig as int),
        ProcStatus::Unknown => "unknown exit status"@,
    }
}

/// The rendering of a suggestion line.
pub open spec fn suggestion_text(s: Suggestion) -> Seq<char> {
    "Did you mean `"@ + s.name@ + "`?"@
}

/// The first `n` items of a list, each in backticks, joined with ", ".
pub open spec fn ticked_commas(items: Seq<String>, n: int) -> Seq<char>
    decreases n,
{
    if n <= 0 || n > items.len() {
        Seq::<char>::empty()
    } else if n == 1 {
        ticked(items[0]@)
    } else {
        ticked_commas(items, n - 1) + ", "@ + ticked(items[n - 1]@)
    }
}

/// A list of ticked items with a conjunction before the last one: one
/// item stands alone, two are joined by the bare conjunction, and longer
/// lists keep a comma before it.
pub open spec fn ticked_list(items: Seq<String>, conj: Seq<char>) -> Seq<char> {
    if items.len() == 0 {
        Seq::<char>::empty()
    } else if items.len() == 1 {
        ticked(items[0]@)
    } else if items.len() == 2 {
        ticked(items[0]@) + " "@ + conj + " "@ + ticked(items[1]@)
    } else {
        ticked_commas(items, items.len() - 1) + ", "@ + conj + " "@ + ticked(items.last()@)
    }
}

/// A command line for display: the binary and each argument in
/// backticks, separated by spaces.
pub open spec fn cmd_text(binary: Seq<char>, args: Seq<String>, n: int) -> Seq<char>
    decreases n,
{
    if n <= 0 || n > args.len() {
        ticked(binary)
    } else {
        cmd_text(binary, args, n - 1) + " "@ + ticked(args[n - 1]@)
    }
}

/// The cycle of recipe names joined with " -> ".
pub open spec fn cycle_text(names: Seq<String>, n: int) -> Seq<char>
    decreases n,
{
    if n <= 0 || n > names.len() {
        Seq::<char>::empty()
    } else if n == 1 {
        names[0]@
    } else {
        cycle_text(names, n - 1) + " -> "@ + names[n - 1]@
    }
}

impl RunError {
    /// The single-line primary message of the error, before styling,
    /// usage line, and source excerpt.
    pub open spec fn message_spec(&self) -> Seq<char> {
        match *self {
            RunError::ArgumentCountMismatch { ref recipe, found, min, max, .. } => {
                let head = "Recipe `"@ + recipe@ + "` got "@ + dec_digits(found as nat) + " "@
                    + count_word("argument"@, found as nat);
                if min == max {
                    head + " but "@ + (if max < found {
                        "only "@
                    } else {
                        Seq::<char>::empty()
                    }) + "takes "@ + dec_digits(min as nat)
                } else if found < min {
                    head + " but takes at least "@ + dec_digits(min as nat)
                } else if found > max {
                    head + " but takes at most "@ + dec_digits(max as nat)
                } else {
                    Seq::<char>::empty()
                }
            },
            RunError::Backtick { ref output_error, .. } => match *output_error {
                OutputError::Code(c) => "Backtick failed with exit code "@ + dec_int(c as int),
                OutputError::Signal(s) => "Backtick was terminated by signal "@ + dec_int(s as int),
                OutputError::Unknown => "Backtick failed for an unknown reason"@,
                OutputError::Io(ref io) => match io.kind {
                    IoKind::NotFound => "Backtick could not be run because just could not find the shell:\n"@
                        + io.message@,
                    IoKind::PermissionDenied => "Backtick could not be run because just could not run the shell:\n"@
                        + io.message@,
                    IoKind::Other => "Backtick could not be run because of an IO error while launching the shell:\n"@
                        + io.message@,
                },
                OutputError::Utf8(ref u) => "Backtick succeeded but stdout was not utf8: "@ + u@,
            },
            RunError::ChooserInvoke { ref shell_binary, ref shell_arguments, ref chooser, ref io_error } => {
                "Chooser `"@ + shell_binary@ + " "@ + shell_arguments@ + " "@ + chooser@
                    + "` invocation failed: "@ + io_error.message@
            },
            RunError::ChooserRead { ref chooser, ref io_error } => {
                "Failed to read output from chooser `"@ + chooser@ + "`: "@ + io_error.message@
            },
            RunError::ChooserStatus { ref chooser, ref status } => {
                "Chooser `"@ + chooser@ + "` failed: "@ + status_text(*status)
            },
            RunError::ChooserWrite { ref chooser, ref io_error } => {
                "Failed to write to chooser `"@ + chooser@ + "`: "@ + io_error.message@
            },
            RunError::CircularDependency { ref recipe, ref cycle } => {
                "Recipe `"@ + recipe@ + "` depends on itself: "@ + cycle_text(
                    cycle@,
                    cycle@.len() as int,
                )
            },
            RunError::CircularInclusion { ref current, ref nested } => {
                "Inclusion of `"@ + nested@ + "` in `"@ + current@ + "` is circular"@
            },
            RunError::Code { ref recipe, ref line_number, code, .. } => match *line_number {
                Option::Some(n) => "Recipe `"@ + recipe@ + "` failed on line "@ + dec_digits(
                    n as nat,
                ) + " with exit code "@ + dec_int(code as int),
                Option::None => "Recipe `"@ + recipe@ + "` failed with exit code "@ + dec_int(
                    code as int,
                ),
            },
            RunError::CommandInvoke { ref binary, ref arguments, ref io_error } => {
                "Failed to invoke "@ + cmd_text(binary@, arguments@, arguments@.len() as int)
                    + ": "@ + io_error.message@
            },
            RunError::CommandStatus { ref binary, ref arguments, ref status } => {
                "Command "@ + cmd_text(binary@, arguments@, arguments@.len() as int)
                    + " failed: "@ + status_text(*status)
            },
            RunError::Compile { ref message, .. } => message@,
            RunError::Config { ref message } => message@,
            RunError::Cygpath { ref recipe, ref output_error } => match *output_error {
                OutputError::Code(c) => "Cygpath failed with exit code "@ + dec_int(c as int)
                    + " while translating recipe `"@ + recipe@ + "` shebang interpreter path"@,
                OutputError::Signal(s) => "Cygpath terminated by signal "@ + dec_int(s as int)
                    + " while translating recipe `"@ + recipe@ + "` shebang interpreter path"@,
                OutputError::Unknown => "Cygpath experienced an unknown failure while translating recipe `"@
                    + recipe@ + "` shebang interpreter path"@,
                OutputError::Io(ref io) => match io.kind {
                    IoKind::NotFound => "Could not find `cygpath` executable to translate recipe `"@
                        + recipe@ + "` shebang interpreter path:\n"@ + io.message@,
                    IoKind::PermissionDenied => "Could not run `cygpath` executable to translate recipe `"@
                        + recipe@ + "` shebang interpreter path:\n"@ + io.message@,
                    IoKind::Other => "Could not run `cygpath` executable:\n"@ + io.message@,
                },
                OutputError::Utf8(ref u) => "Cygpath successfully translated recipe `"@ + recipe@
                    + "` shebang interpreter path, but output was not utf8: "@ + u@,
            },
            RunError::DefaultRecipeRequiresArguments { ref recipe, min_arguments } => {
                "Recipe `"@ + recipe@ + "` cannot be used as default recipe since it requires at least "@
                    + dec_digits(min_arguments as nat) + " "@ + count_word(
                    "argument"@,
                    min_arguments as nat,
                ) + "."@
            },
            RunError::Dotenv { ref message } => "Failed to load environment file: "@ + message@,
            RunError::DumpJson { ref message } => "Failed to dump JSON to stdout: "@ + message@,
            RunError::EditorInvoke { ref editor, ref io_error } => {
                "Editor `"@ + editor@ + "` invocation failed: "@ + io_error.message@
            },
            RunError::EditorStatus { ref editor, ref status } => {
                "Editor `"@ + editor@ + "` failed: "@ + status_text(*status)
            },
            RunError::EvalUnknownVariable { ref variable, ref suggestion } => {
                "Justfile does not contain variable `"@ + variable@ + "`."@ + match *suggestion {
                    Option::Some(ref s) => "\n"@ + suggestion_text(*s),
                    Option::None => Seq::<char>::empty(),
                }
            },
            RunError::FormatCheckFoundDiff => "Formatted justfile differs from original."@,
            RunError::FunctionCall { ref function, ref message, .. } => {
                "Call to function `"@ + function@ + "` failed: "@ + message@
            },
            RunError::InclusionMissingPath { ref file, line } => {
                "Inclusion directive on line "@ + dec_digits(line as nat) + " of `"@ + file@
                    + "` has no argument"@
            },
            RunError::InitExists { ref justfile } => {
                "Justfile `"@ + justfile@ + "` already exists"@
            },
            RunError::Internal { ref message } => {
                "Internal runtime error, this may indicate a bug in just: "@ + message@
                    + " consider filing an issue: https://github.com/casey/just/issues/new"@
            },
            RunError::InvalidDirective { ref line } => "Invalid directive: "@ + line@,
            RunError::Io { ref recipe, ref io_error } => match io_error.kind {
                IoKind::NotFound => "Recipe `"@ + recipe@
                    + "` could not be run because just could not find the shell: "@
                    + io_error.message@,
                IoKind::PermissionDenied => "Recipe `"@ + recipe@
                    + "` could not be run because just could not run the shell: "@
                    + io_error.message@,
                IoKind::Other => "Recipe `"@ + recipe@
                    + "` could not be run because of an IO error while launching the shell: "@
                    + io_error.message@,
            },
            RunError::Load { ref path, ref io_error } => {
                "Failed to read justfile at `"@ + path@ + "`: "@ + io_error.message@
            },
            RunError::NoChoosableRecipes => "Justfile contains no choosable recipes."@,
            RunError::NoRecipes => "Justfile contains no recipes."@,
            RunError::RegexCompile { ref message } => message@,
            RunError::Search { ref message } => message@,
            RunError::Shebang { ref recipe, ref command, ref argument, ref io_error } => {
                match *argument {
                    Option::Some(ref a) => "Recipe `"@ + recipe@ + "` with shebang `#!"@
                        + command@ + " "@ + a@ + "` execution error: "@ + io_error.message@,
                    Option::None => "Recipe `"@ + recipe@ + "` with shebang `#!"@ + command@
                        + "` execution error: "@ + io_error.message@,
                }
            },
            RunError::Signal { ref recipe, ref line_number, signal } => match *line_number {
                Option::Some(n) => "Recipe `"@ + recipe@ + "` was terminated on line "@
                    + dec_digits(n as nat) + " by signal "@ + dec_int(signal as int),
                Option::None => "Recipe `"@ + recipe@ + "` was terminated by signal "@ + dec_int(
                    signal as int,
                ),
            },
            RunError::TmpdirIo { ref recipe, ref io_error } => {
                "Recipe `"@ + recipe@
                    + "` could not be run because of an IO error while trying to create a temporary directory or write a file to that directory`:"@
                    + io_error.message@
            },
            RunError::Unknown { ref recipe, ref line_number } => match *line_number {
                Option::Some(n) => "Recipe `"@ + recipe@ + "` failed on line "@ + dec_digits(
                    n as nat,
                ) + " for an unknown reason"@,
                Option::None => "Recipe `"@ + recipe@ + "` failed for an unknown reason"@,
            },
            RunError::UnknownOverrides { ref overrides } => {
                count_word("Variable"@, overrides@.len() as nat) + " "@ + ticked_list(
                    overrides@,
                    "and"@,
                ) + " overridden on the command line but not present in justfile"@
            },
            RunError::UnknownRecipes { ref recipes, ref suggestion } => {
                "Justfile does not contain "@ + count_word("recipe"@, recipes@.len() as nat)
                    + " "@ + ticked_list(recipes@, "or"@) + "."@ + match *suggestion {
                    Option::Some(ref s) => "\n"@ + suggestion_text(*s),
                    Option::None => Seq::<char>::empty(),
                }
            },
            RunError::Unstable { ref message } => {
                message@ + " Invoke `just` with the `--unstable` flag to enable unstable features."@
            },
            RunError::WriteJustfile { ref justfile, ref io_error } => {
                "Failed to write justfile to `"@ + justfile@ + "`: "@ + io_error.message@
            },
        }
    }

    /// The explicit exit code carried by the failure, when it has one: a
    /// recipe's or backtick's own code, or an external chooser's or
    /// editor's status code.
    pub open spec fn code_spec(&self) -> Option<i32> {
        match *self {
            RunError::Code { code, .. } => Option::Some(code),
            RunError::Backtick { output_error: OutputError::Code(code), .. } => Option::Some(code),
            RunError::ChooserStatus { status: ProcStatus::Code(code), .. } => Option::Some(code),
            RunError::EditorStatus { status: ProcStatus::Code(code), .. } => Option::Some(code),
            _ => Option::None,
        }
    }

    /// See `code_spec`.
    pub fn code(&self) -> (r: Option<i32>)
        ensures
            r == self.code_spec(),
    {
        match self {
            RunError::Code { code, .. } => Option::Some(*code),
            RunError::Backtick { output_error: OutputError::Code(code), .. } => Option::Some(*code),
            RunError::ChooserStatus { status: ProcStatus::Code(code), .. } => Option::Some(*code),
            RunError::EditorStatus { status: ProcStatus::Code(code), .. } => Option::Some(*code),
            _ => Option::None,
        }
    }

    /// The source point the failure is attributable to, when one is
    /// known.
    pub open spec fn context_spec(&self) -> Option<SourceSnapshot> {
        match *self {
            RunError::Backtick { context, .. } => context,
            RunError::Compile { context, .. } => context,
            RunError::FunctionCall { context, .. } => context,
            _ => Option::None,
        }
    }

    /// See `context_spec`.
    pub fn context(&self) -> (r: Option<&SourceSnapshot>)
        ensures
            match r {
                Option::Some(t) => self.context_spec() == Option::Some(*t),
                Option::None => self.context_spec() is None,
            },
    {
        match self {
            RunError::Backtick { context: Option::Some(t), .. } => Option::Some(t),
            RunError::Compile { context: Option::Some(t), .. } => Option::Some(t),
            RunError::FunctionCall { context: Option::Some(t), .. } => Option::Some(t),
            _ => Option::None,
        }
    }

    /// An internal-invariant violation: always a defect, never expected
    /// in correct operation.
    pub fn internal(message: String) -> (r: RunError)
        ensures
            r == (RunError::Internal { message }),
    {
        RunError::Internal { message }
    }

    /// Whether the failure's message should be printed at all: the
    /// deliberate exit-code passthrough case stays silent, having been
    /// reported by the failing program itself.
    pub open spec fn print_message_spec(&self) -> bool {
        !matches!(*self, RunError::Code { print_message: false, .. })
    }

    /// See `print_message_spec`.
    pub fn print_message(&self) -> (r: bool)
        ensures
            r == self.print_message_spec(),
    {
        !(matches!(self, RunError::Code { print_message: false, .. }))
    }
}

/// Red bold styling around `s` when `active`, bare `s` otherwise.
pub open spec fn paint_error(active: bool, s: Seq<char>) -> Seq<char> {
    if active {
        "\u{1b}[1;31m"@ + s + "\u{1b}[0m"@
    } else {
        s
    }
}

/// Bold styling around `s` when `active`, bare `s` otherwise.
pub open spec fn paint_message(active: bool, s: Seq<char>) -> Seq<char> {
    if active {
        "\u{1b}[1m"@ + s + "\u{1b}[0m"@
    } else {
        s
    }
}

/// One parameter in a usage line: its variadic marker, its name, and its
/// default expression when it has one.
pub open spec fn param_text(p: Parameter) -> Seq<char> {
    (match p.kind {
        ParamKind::Singular => Seq::<char>::empty(),
        ParamKind::OneOrMore => "+"@,
        ParamKind::ZeroOrMore => "*"@,
    }) + p.name@ + (match p.default {
        Option::Some(e) => "="@ + unparse_spec(e),
        Option::None => Seq::<char>::empty(),
    })
}

/// The first `n` parameters of a usage line, each preceded by a space.
pub open spec fn params_text(ps: Seq<Parameter>, n: int) -> Seq<char>
    decreases n,
{
    if n <= 0 || n > ps.len() {
        Seq::<char>::empty()
    } else {
        params_text(ps, n - 1) + " "@ + param_text(ps[n - 1])
    }
}

/// Writing out the first `n` parameters reads only those parameters.
pub proof fn lemma_params_text_prefix(a: Seq<Parameter>, b: Seq<Parameter>, n: int)
    requires
        n <= a.len(),
        n <= b.len(),
        forall|i: int| 0 <= i < n ==> #[trigger] param_text(a[i]) == param_text(b[i]),
    ensures
        params_text(a, n) == params_text(b, n),
    decreases n,
{
    if n > 0 {
        lemma_params_text_prefix(a, b, n - 1);
    }
}

/// The source excerpt printed under an attributable failure.
pub open spec fn snapshot_text(t: SourceSnapshot) -> Seq<char> {
    " --> line "@ + dec_digits(t.line as nat) + ", column "@ + dec_digits(t.column as nat)
        + ": "@ + t.text@
}

impl RunError {
    /// The full rendering of the error under a color policy: the painted
    /// `error:` prefix, the primary message, a usage line for an arity
    /// mismatch, and a source excerpt when the failure is attributable.
    pub open spec fn render_spec(&self, active: bool) -> Seq<char> {
        paint_error(active, "error"@) + ": "@ + paint_message(active, self.message_spec())
            + (match *self {
            RunError::ArgumentCountMismatch { ref recipe, ref parameters, .. } => "\n"@
                + paint_message(active, "usage"@) + ":\n    just "@ + recipe@ + params_text(
                parameters@,
                parameters@.len() as int,
            ),
            _ => Seq::<char>::empty(),
        }) + (match self.context_spec() {
            Option::Some(t) => "\n"@ + snapshot_text(t),
            Option::None => Seq::<char>::empty(),
        })
    }
}

impl RunError {
    /// Renders the single-line primary message, exactly as
    /// `message_spec` states it.
    #[verifier::rlimit(60)]
    pub fn render_message(&self) -> (r: String)
        ensures
            r@ == self.message_spec(),
    {
        let mut s = String::new();
        match self {
            RunError::ArgumentCountMismatch { recipe, found, min, max, .. } => {
                s.append("Recipe `");
                s.append(recipe.as_str());
                s.append("` got ");
                let f = usize_to_string(*found);
                s.append(f.as_str());
                s.append(" ");
                append_count(&mut s, "argument", *found);
                if min == max {
                    s.append(" but ");
                    if max < found {
                        s.append("only ");
                    }
                    s.append("takes ");
                    let m = usize_to_string(*min);
                    s.append(m.as_str());
                } else if found < min {
                    s.append(" but takes at least ");
                    let m = usize_to_string(*min);
                    s.append(m.as_str());
                } else if found > max {
                    s.append(" but takes at most ");
                    let m = usize_to_string(*max);
                    s.append(m.as_str());
                } else {
                    s = String::new();
                }
            },
            RunError::Backtick { output_error, .. } => match output_error {
                OutputError::Code(c) => {
                    s.append("Backtick failed with exit code ");
                    let d = i32_to_string(*c);
                    s.append(d.as_str());
                },
                OutputError::Signal(sig) => {
                    s.append("Backtick was terminated by signal ");
                    let d = i32_to_string(*sig);
                    s.append(d.as_str());
                },
                OutputError::Unknown => {
                    s.append("Backtick failed for an unknown reason");
                },
                OutputError::Io(io) => {
                    match io.kind {
                        IoKind::NotFound => s.append(
                            "Backtick could not be run because just could not find the shell:\n",
                        ),
                        IoKind::PermissionDenied => s.append(
                            "Backtick could not be run because just could not run the shell:\n",
                        ),
                        IoKind::Other => s.append(
                            "Backtick could not be run because of an IO error while launching the shell:\n",
                        ),
                    }
                    s.append(io.message.as_str());
                },
                OutputError::Utf8(u) => {
                    s.append("Backtick succeeded but stdout was not utf8: ");
                    s.append(u.as_str());
                },
            },
            RunError::ChooserInvoke { shell_binary, shell_arguments, chooser, io_error } => {
                s.append("Chooser `");
                s.append(shell_binary.as_str());
                s.append(" ");
                s.append(shell_arguments.as_str());
                s.append(" ");
                s.append(chooser.as_str());
                s.append("` invocation failed: ");
                s.append(io_error.message.as_str());
            },
            RunError::ChooserRead { chooser, io_error } => {
                s.append("Failed to read output from chooser `");
                s.append(chooser.as_str());
                s.append("`: ");
                s.append(io_error.message.as_str());
            },
            RunError::ChooserStatus { chooser, status } => {
                s.append("Chooser `");
                s.append(chooser.as_str());
                s.append("` failed: ");
                append_status(&mut s, status);
            },
            RunError::ChooserWrite { chooser, io_error } => {
                s.append("Failed to write to chooser `");
                s.append(chooser.as_str());
                s.append("`: ");
                s.append(io_error.message.as_str());
            },
            RunError::CircularDependency { recipe, cycle } => {
                s.append("Recipe `");
                s.append(recipe.as_str());
                s.append("` depends on itself: ");
                append_cycle(&mut s, cycle);
            },
            RunError::CircularInclusion { current, nested } => {
                s.append("Inclusion of `");
                s.append(nested.as_str());
                s.append("` in `");
                s.append(current.as_str());
                s.append("` is circular");
            },
            RunError::Code { recipe, line_number, code, .. } => {
                s.append("Recipe `");
                s.append(recipe.as_str());
                match line_number {
                    Option::Some(n) => {
                        s.append("` failed on line ");
                        let d = usize_to_string(*n);
                        s.append(d.as_str());
                        s.append(" with exit code ");
                    },
                    Option::None => {
                        s.append("` failed with exit code ");
                    },
                }
                let c = i32_to_string(*code);
                s.append(c.as_str());
            },
            RunError::CommandInvoke { binary, arguments, io_error } => {
                s.append("Failed to invoke ");
                append_cmd(&mut s, binary, arguments);
                s.append(": ");
                s.append(io_error.message.as_str());
            },
            RunError::CommandStatus { binary, arguments, status } => {
                s.append("Command ");
                append_cmd(&mut s, binary, arguments);
                s.append(" failed: ");
                append_status(&mut s, status);
            },
            RunError::Compile { message, .. } => {
                s.append(message.as_str());
            },
            RunError::Config { message } => {
                s.append(message.as_str());
            },
            RunError::Cygpath { recipe, output_error } => match output_error {
                OutputError::Code(c) => {
                    s.append("Cygpath failed with exit code ");
                    let d = i32_to_string(*c);
                    s.append(d.as_str());
                    s.append(" while translating recipe `");
                    s.append(recipe.as_str());
                    s.append("` shebang interpreter path");
                },
                OutputError::Signal(sig) => {
                    s.append("Cygpath terminated by signal ");
                    let d = i32_to_string(*sig);
                    s.append(d.as_str());
                    s.append(" while translating recipe `");
                    s.append(recipe.as_str());
                    s.append("` shebang interpreter path");
                },
                OutputError::Unknown => {
                    s.append("Cygpath experienced an unknown failure while translating recipe `");
                    s.append(recipe.as_str());
                    s.append("` shebang interpreter path");
                },
                OutputError::Io(io) => {
                    match io.kind {
                        IoKind::NotFound => {
                            s.append("Could not find `cygpath` executable to translate recipe `");
                            s.append(recipe.as_str());
                            s.append("` shebang interpreter path:\n");
                        },
                        IoKind::PermissionDenied => {
                            s.append("Could not run `cygpath` executable to translate recipe `");
                            s.append(recipe.as_str());
                            s.append("` shebang interpreter path:\n");
                        },
                        IoKind::Other => {
                            s.append("Could not run `cygpath` executable:\n");
                        },
                    }
                    s.append(io.message.as_str());
                },
                OutputError::Utf8(u) => {
                    s.append("Cygpath successfully translated recipe `");
                    s.append(recipe.as_str());
                    s.append("` shebang interpreter path, but output was not utf8: ");
                    s.append(u.as_str());
                },
            },
            RunError::DefaultRecipeRequiresArguments { recipe, min_arguments } => {
                s.append("Recipe `");
                s.append(recipe.as_str());
                s.append("` cannot be used as default recipe since it requires at least ");
                let d = usize_to_string(*min_arguments);
                s.append(d.as_str());
                s.append(" ");
                append_count(&mut s, "argument", *min_arguments);
                s.append(".");
            },
            RunError::Dotenv { message } => {
                s.append("Failed to load environment file: ");
                s.append(message.as_str());
            },
            RunError::DumpJson { message } => {
                s.append("Failed to dump JSON to stdout: ");
                s.append(message.as_str());
            },
            RunError::EditorInvoke { editor, io_error } => {
                s.append("Editor `");
                s.append(editor.as_str());
                s.append("` invocation failed: ");
                s.append(io_error.message.as_str());
            },
            RunError::EditorStatus { editor, status } => {
                s.append("Editor `");
                s.append(editor.as_str());
                s.append("` failed: ");
                append_status(&mut s, status);
            },
            RunError::EvalUnknownVariable { variable, suggestion } => {
                s.append("Justfile does not contain variable `");
                s.append(variable.as_str());
                s.append("`.");
                append_suggestion(&mut s, suggestion);
            },
            RunError::FormatCheckFoundDiff => {
                s.append("Formatted justfile differs from original.");
            },
            RunError::FunctionCall { function, message, .. } => {
                s.append("Call to function `");
                s.append(function.as_str());
                s.append("` failed: ");
                s.append(message.as_str());
            },
            RunError::InclusionMissingPath { file, line } => {
                s.append("Inclusion directive on line ");
                let d = usize_to_string(*line);
                s.append(d.as_str());
                s.append(" of `");
                s.append(file.as_str());
                s.append("` has no argument");
            },
            RunError::InitExists { justfile } => {
                s.append("Justfile `");
                s.append(justfile.as_str());
                s.append("` already exists");
            },
            RunError::Internal { message } => {
                s.append("Internal runtime error, this may indicate a bug in just: ");
                s.append(message.as_str());
                s.append(" consider filing an issue: https://github.com/casey/just/issues/new");
            },
            RunError::InvalidDirective { line } => {
                s.append("Invalid directive: ");
                s.append(line.as_str());
            },
            RunError::Io { recipe, io_error } => {
                s.append("Recipe `");
                s.append(recipe.as_str());
                match io_error.kind {
                    IoKind::NotFound => s.append(
                        "` could not be run because just could not find the shell: ",
                    ),
                    IoKind::PermissionDenied => s.append(
                        "` could not be run because just could not run the shell: ",
                    ),
                    IoKind::Other => s.append(
                        "` could not be run because of an IO error while launching the shell: ",
                    ),
                }
                s.append(io_error.message.as_str());
            },
            RunError::Load { path, io_error } => {
                s.append("Failed to read justfile at `");
                s.append(path.as_str());
                s.append("`: ");
                s.append(io_error.message.as_str());
            },
            RunError::NoChoosableRecipes => {
                s.append("Justfile contains no choosable recipes.");
            },
            RunError::NoRecipes => {
                s.append("Justfile contains no recipes.");
            },
            RunError::RegexCompile { message } => {
                s.append(message.as_str());
            },
            RunError::Search { message } => {
                s.append(message.as_str());
            },
            RunError::Shebang { recipe, command, argument, io_error } => {
                s.append("Recipe `");
                s.append(recipe.as_str());
                s.append("` with shebang `#!");
                s.append(command.as_str());
                match argument {
                    Option::Some(a) => {
                        s.append(" ");
                        s.append(a.as_str());
                    },
                    Option::None => {},
                }
                s.append("` execution error: ");
                s.append(io_error.message.as_str());
            },
            RunError::Signal { recipe, line_number, signal } => {
                s.append("Recipe `");
                s.append(recipe.as_str());
                match line_number {
                    Option::Some(n) => {
                        s.append("` was terminated on line ");
                        let d = usize_to_string(*n);
                        s.append(d.as_str());
                        s.append(" by signal ");
                    },
                    Option::None => {
                        s.append("` was terminated by signal ");
                    },
                }
                let d = i32_to_string(*signal);
                s.append(d.as_str());
            },
            RunError::TmpdirIo { recipe, io_error } => {
                s.append("Recipe `");
                s.append(recipe.as_str());
                s.append(
                    "` could not be run because of an IO error while trying to create a temporary directory or write a file to that directory`:",
                );
                s.append(io_error.message.as_str());
            },
            RunError::Unknown { recipe, line_number } => {
                s.append("Recipe `");
                s.append(recipe.as_str());
                match line_number {
                    Option::Some(n) => {
                        s.append("` failed on line ");
                        let d = usize_to_string(*n);
                        s.append(d.as_str());
                        s.append(" for an unknown reason");
                    },
                    Option::None => {
                        s.append("` failed for an unknown reason");
                    },
                }
            },
            RunError::UnknownOverrides { overrides } => {
                append_count(&mut s, "Variable", overrides.len());
                s.append(" ");
                append_ticked_list(&mut s, overrides, "and");
                s.append(" overridden on the command line but not present in justfile");
            },
            RunError::UnknownRecipes { recipes, suggestion } => {
                s.append("Justfile does not contain ");
                append_count(&mut s, "recipe", recipes.len());
                s.append(" ");
                append_ticked_list(&mut s, recipes, "or");
                s.append(".");
                append_suggestion(&mut s, suggestion);
            },
            RunError::Unstable { message } => {
                s.append(message.as_str());
                s.append(" Invoke `just` with the `--unstable` flag to enable unstable features.");
            },
            RunError::WriteJustfile { justfile, io_error } => {
                s.append("Failed to write justfile to `");
                s.append(justfile.as_str());
                s.append("`: ");
                s.append(io_error.message.as_str());
            },
        }
        proof {
            assert(s@ =~= self.message_spec());
        }
        s
    }

    /// Renders the whole user-visible report: painted prefix, primary
    /// message, usage line for an arity mismatch, source excerpt when
    /// the failure is attributable.
    #[verifier::loop_isolation(false)]
    #[verifier::rlimit(90)]
    pub fn render(&self, color: bool) -> (r: String)
        ensures
            r@ == self.render_spec(color),
    {
        let mut s = String::new();
        if color {
            s.append("\u{1b}[1;31m");
        }
        s.append("error");
        if color {
            s.append("\u{1b}[0m");
        }
        s.append(": ");
        if color {
            s.append("\u{1b}[1m");
        }
        let body = self.render_message();
        s.append(body.as_str());
        if color {
            s.append("\u{1b}[0m");
        }
        match self {
            RunError::ArgumentCountMismatch { recipe, parameters, .. } => {
                s.append("\n");
                if color {
                    s.append("\u{1b}[1m");
                }
                s.append("usage");
                if color {
                    s.append("\u{1b}[0m");
                }
                s.append(":\n    just ");
                s.append(recipe.as_str());
                let ghost pre = s@;
                let mut i: usize = 0;
                while i < parameters.len()
                    invariant
                        i <= parameters@.len(),
                        s@ == pre + params_text(parameters@, i as int),
                    decreases parameters@.len() - i,
                {
                    s.append(" ");
                    let p = &parameters[i];
                    match p.kind {
                        ParamKind::Singular => {},
                        ParamKind::OneOrMore => s.append("+"),
                        ParamKind::ZeroOrMore => s.append("*"),
                    }
                    s.append(p.name.as_str());
                    match &p.default {
                        Option::Some(e) => {
                            s.append("=");
                            let u = e.unparse();
                            s.append(u.as_str());
                        },
                        Option::None => {},
                    }
                    proof {
                        assert(s@ =~= pre + params_text(parameters@, i + 1));
                    }
                    i = i + 1;
                }
            },
            _ => {},
        }
        match self.context() {
            Option::Some(t) => {
                s.append("\n");
                s.append(" --> line ");
                let d = usize_to_string(t.line);
                s.append(d.as_str());
                s.append(", column ");
                let c = usize_to_string(t.column);
                s.append(c.as_str());
                s.append(": ");
                s.append(t.text.as_str());
            },
            Option::None => {},
        }
        proof {
            assert(s@ =~= self.render_spec(color));
        }
        s
    }
}

/// Appends the pluralised word for a count.
fn append_count(s: &mut String, word: &str, n: usize)
    ensures
        final(s)@ == old(s)@ + count_word(word@, n as nat),
{
    s.append(word);
    if n != 1 {
        s.append("s");
    }
}

/// Appends the rendering of an external tool's status.
fn append_status(s: &mut String, st: &ProcStatus)
    ensures
        final(s)@ == old(s)@ + status_text(*st),
{
    match st {
        ProcStatus::Code(c) => {
            s.append("exit status: ");
            let d = i32_to_string(*c);
            s.append(d.as_str());
        },
        ProcStatus::Signal(sig) => {
            s.append("signal: ");
            let d = i32_to_string(*sig);
            s.append(d.as_str());
        },
        ProcStatus::Unknown => {
            s.append("unknown exit status");
        },
    }
}

/// Appends one name in backticks.
fn append_ticked(s: &mut String, item: &str)
    ensures
        final(s)@ == old(s)@ + ticked(item@),
{
    s.append("`");
    s.append(item);
    s.append("`");
}

/// Appends a ticked list with a conjunction before the last item.
#[verifier::loop_isolation(false)]
fn append_ticked_list(s: &mut String, items: &Vec<String>, conj: &str)
    ensures
        final(s)@ == old(s)@ + ticked_list(items@, conj@),
{
    let n = items.len();
    if n == 0 {
    } else if n == 1 {
        append_ticked(s, items[0].as_str());
    } else if n == 2 {
        append_ticked(s, items[0].as_str());
        s.append(" ");
        s.append(conj);
        s.append(" ");
        append_ticked(s, items[1].as_str());
        proof {
            assert(s@ =~= old(s)@ + ticked_list(items@, conj@));
        }
    } else {
        let ghost pre = s@;
        let mut i: usize = 0;
        while i < n - 1
            invariant
                i <= n - 1,
                s@ == pre + ticked_commas(items@, i as int),
            decreases n - i,
        {
            if i > 0 {
                s.append(", ");
            }
            append_ticked(s, items[i].as_str());
            proof {
                assert(s@ =~= pre + ticked_commas(items@, i + 1));
            }
            i = i + 1;
        }
        s.append(", ");
        s.append(conj);
        s.append(" ");
        append_ticked(s, items[n - 1].as_str());
        proof {
            assert(items@.last() == items@[n - 1]);
            assert(s@ =~= pre + ticked_list(items@, conj@));
        }
    }
}

/// Appends the display form of a command line.
#[verifier::loop_isolation(false)]
fn append_cmd(s: &mut String, binary: &String, arguments: &Vec<String>)
    ensures
        final(s)@ == old(s)@ + cmd_text(binary@, arguments@, arguments@.len() as int),
{
    let ghost pre = s@;
    append_ticked(s, binary.as_str());
    let mut i: usize = 0;
    while i < arguments.len()
        invariant
            i <= arguments@.len(),
            s@ == pre + cmd_text(binary@, arguments@, i as int),
        decreases arguments@.len() - i,
    {
        s.append(" ");
        append_ticked(s, arguments[i].as_str());
        proof {
            assert(s@ =~= pre + cmd_text(binary@, arguments@, i + 1));
        }
        i = i + 1;
    }
}

/// Appends the cycle of recipe names joined with " -> ".
#[verifier::loop_isolation(false)]
fn append_cycle(s: &mut String, names: &Vec<String>)
    ensures
        final(s)@ == old(s)@ + cycle_text(names@, names@.len() as int),
{
    let ghost pre = s@;
    let mut i: usize = 0;
    while i < names.len()
        invariant
            i <= names@.len(),
            s@ == pre + cycle_text(names@, i as int),
        decreases names@.len() - i,
    {
        if i > 0 {
            s.append(" -> ");
        }
        s.append(names[i].as_str());
        proof {
            assert(s@ =~= pre + cycle_text(names@, i + 1));
        }
        i = i + 1;
    }
}

/// Appends an optional suggestion on its own line.
fn append_suggestion(s: &mut String, suggestion: &Option<Suggestion>)
    ensures
        final(s)@ == old(s)@ + match *suggestion {
            Option::Some(sg) => "\n"@ + suggestion_text(sg),
            Option::None => Seq::<char>::empty(),
        },
{
    match suggestion {
        Option::Some(sg) => {
            s.append("\n");
            s.append("Did you mean `");
            s.append(sg.name.as_str());
            s.append("`?");
            proof {
                assert(s@ =~= old(s)@ + ("\n"@ + suggestion_text(*sg)));
            }
        },
        Option::None => {},
    }
}

/// A command line for display: the binary, then each argument, each
/// enclosed in backticks and separated by single spaces.
pub fn format_cmd(binary: &String, arguments: &Vec<String>) -> (r: String)
    ensures
        r@ == cmd_text(binary@, arguments@, arguments@.len() as int),
{
    let mut s = String::from_str("`");
    s.append(binary.as_str());
    s.append("`");
    proof {
        assert(s@ =~= cmd_text(binary@, arguments@, 0));
    }
    let mut i: usize = 0;
    while i < arguments.len()
        invariant
            i <= arguments@.len(),
            s@ == cmd_text(binary@, arguments@, i as int),
        decreases arguments@.len() - i,
    {
        s.append(" ");
        s.append("`");
        s.append(arguments[i].as_str());
        s.append("`");
        proof {
            assert(s@ =~= cmd_text(binary@, arguments@, i + 1));
        }
        i = i + 1;
    }
    s
}

} // verus!
