//! Commands that build modules run, and what is made of their output.

use vstd::prelude::*;

use crate::project::{full_path, path_from_root};
use crate::text::{begins, copy_texts, join, joined, starts_with};
use crate::types::{BuildEvent, BuildEventView, BuildSpec};

verus! {

/// A program and its arguments.
#[derive(Debug, PartialEq, Eq)]
pub struct CommandLine {
    pub program: String,
    pub args: Vec<String>,
}

/// What a [`CommandLine`] holds.
#[verifier::ext_equal]
pub struct CommandLineView {
    pub program: Seq<char>,
    pub args: Seq<Seq<char>>,
}

impl DeepView for CommandLine {
    type V = CommandLineView;

    open spec fn deep_view(&self) -> CommandLineView {
        CommandLineView {
            program: self.program@,
            args: self.args.deep_view(),
        }
    }
}

impl Clone for CommandLine {
    fn clone(&self) -> (r: Self)
        ensures
            r.deep_view() == self.deep_view(),
    {
        CommandLine {
            program: self.program.clone(),
            args: copy_texts(&self.args),
        }
    }
}

/// How a command ended.
#[derive(Debug, PartialEq, Eq)]
pub struct CommandOutput {
    pub success: bool,
    pub command: String,
    pub output: String,
    pub exit_code: Option<i32>,
}

/// What a [`CommandOutput`] holds.
#[verifier::ext_equal]
pub struct CommandOutputView {
    pub success: bool,
    pub command: Seq<char>,
    pub output: Seq<char>,
    pub exit_code: Option<i32>,
}

impl DeepView for CommandOutput {
    type V = CommandOutputView;

    open spec fn deep_view(&self) -> CommandOutputView {
        CommandOutputView {
            success: self.success,
            command: self.command@,
            output: self.output@,
            exit_code: self.exit_code,
        }
    }
}

impl Clone for CommandOutput {
    fn clone(&self) -> (r: Self)
        ensures
            r.deep_view() == self.deep_view(),
    {
        CommandOutput {
            success: self.success,
            command: self.command.clone(),
            output: self.output.clone(),
            exit_code: self.exit_code,
        }
    }
}

/// What a build module is asked to do.
#[derive(Debug, Clone, Copy, PartialEq, Eq, Structural)]
pub enum Request {
    Build,
    Test,
    Clean,
    Lint,
    Format,
    Fix,
    LintStreaming,
    FixStreaming,
}

/// What is done about a request.
#[derive(Debug, PartialEq, Eq)]
pub enum Plan {
    /// The command is run.
    Run(CommandLine),
    /// The first command is run, and the second where it cannot be started.
    RunOr(CommandLine, CommandLine),
    /// No command is run; the module does the work itself.
    Direct,
    /// Nothing is run; the request is refused.
    Refuse(String),
}

/// What a [`Plan`] holds.
pub enum PlanView {
    Run(CommandLineView),
    RunOr(CommandLineView, CommandLineView),
    Direct,
    Refuse(Seq<char>),
}

impl DeepView for Plan {
    type V = PlanView;

    open spec fn deep_view(&self) -> PlanView {
        match self {
            Plan::Run(c) => PlanView::Run(c.deep_view()),
            Plan::RunOr(c, d) => PlanView::RunOr(c.deep_view(), d.deep_view()),
            Plan::Direct => PlanView::Direct,
            Plan::Refuse(s) => PlanView::Refuse(s@),
        }
    }
}

/// The name of a request.
pub open spec fn request_name(request: Request) -> Seq<char> {
    match request {
        Request::Build => "build"@,
        Request::Test => "test"@,
        Request::Clean => "clean"@,
        Request::Lint => "lint"@,
        Request::Format => "format"@,
        Request::Fix => "fix"@,
        Request::LintStreaming => "lint streaming"@,
        Request::FixStreaming => "fix streaming"@,
    }
}

/// The refusal of a request that a module does not serve.
pub open spec fn refusal(request: Request) -> PlanView {
    PlanView::Refuse(request_name(request) + " not implemented for this module"@)
}

/// Refuses a request that a module does not serve.
pub fn refuse(request: Request) -> (r: Plan)
    ensures
        r.deep_view() == refusal(request),
{
    let name = match request {
        Request::Build => "build",
        Request::Test => "test",
        Request::Clean => "clean",
        Request::Lint => "lint",
        Request::Format => "format",
        Request::Fix => "fix",
        Request::LintStreaming => "lint streaming",
        Request::FixStreaming => "fix streaming",
    };
    let mut s = name.to_owned();
    s.append(" not implemented for this module");
    Plan::Refuse(s)
}

/// The text of a command.
pub open spec fn command_text(program: Seq<char>, args: Seq<Seq<char>>) -> Seq<char> {
    program + " "@ + joined(args, " "@)
}

/// The text of a command.
pub fn command_line(program: &str, args: &Vec<String>) -> (r: String)
    ensures
        r@ == command_text(program@, args.deep_view()),
{
    let mut s = program.to_owned();
    s.append(" ");
    s.append(join(args, " ").as_str());
    s
}

/// What a command printed: its output, and behind it what it reported on the
/// side where there was anything.
pub open spec fn merged(stdout: Seq<char>, stderr: Seq<char>) -> Seq<char> {
    if stderr.len() == 0 {
        stdout
    } else {
        stdout + "\n"@ + stderr
    }
}

/// How a command ended, from what it left behind.
pub fn captured(
    program: &str,
    args: &Vec<String>,
    stdout: &str,
    stderr: &str,
    success: bool,
    exit_code: Option<i32>,
) -> (r: CommandOutput)
    ensures
        r.deep_view() == (CommandOutputView {
            success,
            command: command_text(program@, args.deep_view()),
            output: merged(stdout@, stderr@),
            exit_code,
        }),
{
    let mut output = stdout.to_owned();
    if stderr.unicode_len() > 0 {
        output.append("\n");
        output.append(stderr);
    }
    CommandOutput { success, command: command_line(program, args), output, exit_code }
}

/// Why a command could not be started.
pub fn start_failure(program: &str, error: &str) -> (r: String)
    ensures
        r@ == "Failed to execute "@ + program@ + ": "@ + error@,
{
    let mut s = "Failed to execute ".to_owned();
    s.append(program);
    s.append(": ");
    s.append(error);
    s
}

/// The directory in which a target's command runs.
pub open spec fn work_dir(path: Seq<char>, working_dir: Seq<char>) -> Seq<char> {
    if working_dir.len() == 0 {
        path
    } else if begins(working_dir, "/"@) {
        working_dir
    } else {
        full_path(path, working_dir)
    }
}

/// The directory in which a target's command runs: the project's, or one below
/// it, or another where the target names an absolute path.
pub fn build_spec_dir(path: &str, spec: &BuildSpec) -> (r: String)
    ensures
        r@ == work_dir(path@, spec.working_dir@),
{
    let dir = spec.working_dir.as_str();
    if dir.unicode_len() == 0 {
        path.to_owned()
    } else if starts_with(dir, "/") {
        dir.to_owned()
    } else {
        path_from_root(path, dir)
    }
}

/// The event that closes a stream.
pub open spec fn finished_event(line: Seq<char>) -> BuildEventView {
    BuildEventView {
        line,
        level: "finished"@,
        target: None,
        file: None,
        line_number: None,
        message: None,
        detail: None,
    }
}

/// The event that closes a stream; `what` is empty or ends in a blank, and the
/// seconds are as they are printed.
pub fn finish(what: &str, path: &str, seconds: &str) -> (r: BuildEvent)
    ensures
        r.deep_view() == finished_event(
            "Finished "@ + what@ + path@ + " in "@ + seconds@ + "s"@,
        ),
{
    let mut line = "Finished ".to_owned();
    line.append(what);
    line.append(path);
    line.append(" in ");
    line.append(seconds);
    line.append("s");
    BuildEvent {
        line,
        level: "finished".to_owned(),
        target: None,
        file: None,
        line_number: None,
        message: None,
        detail: None,
    }
}

} // verus!
