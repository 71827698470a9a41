use vstd::prelude::*;

verus! {

/// One argument on the command line of an external program.
#[derive(Debug, Clone, PartialEq, Eq)]
pub enum Argument {
    /// Handed over as written.
    Text(String),
    /// The path of `file` in the directory `dir` under the output root.
    Path { dir: String, file: String },
}

pub enum ArgumentView {
    Text(Seq<char>),
    Path { dir: Seq<char>, file: Seq<char> },
}

impl View for Argument {
    type V = ArgumentView;

    open spec fn view(&self) -> ArgumentView {
        match *self {
            Argument::Text(text) => ArgumentView::Text(text@),
            Argument::Path { dir, file } => ArgumentView::Path { dir: dir@, file: file@ },
        }
    }
}

/// The views of a list of arguments, in order.
pub open spec fn argument_views(args: Seq<Argument>) -> Seq<ArgumentView> {
    args.map_values(|a: Argument| a@)
}

/// The views of a list of environment variables, name then value, in order.
pub open spec fn variable_views(env: Seq<(String, String)>) -> Seq<(Seq<char>, Seq<char>)> {
    env.map_values(|v: (String, String)| (v.0@, v.1@))
}

/// An external program to run: what to start, with which arguments and
/// which additions to the environment.
#[derive(Debug, Clone, PartialEq, Eq)]
pub struct Invocation {
    pub program: String,
    pub args: Vec<Argument>,
    /// Variables added to the environment of the child, name then value.
    pub env: Vec<(String, String)>,
    /// Whether the child runs with the site directory as its working
    /// directory; otherwise it inherits the working directory.
    pub in_site_dir: bool,
    /// Whether standard error of the child is captured; otherwise the child
    /// inherits it.
    pub capture_stderr: bool,
}

pub struct InvocationView {
    pub program: Seq<char>,
    pub args: Seq<ArgumentView>,
    pub env: Seq<(Seq<char>, Seq<char>)>,
    pub in_site_dir: bool,
    pub capture_stderr: bool,
}

impl View for Invocation {
    type V = InvocationView;

    open spec fn view(&self) -> InvocationView {
        InvocationView {
            program: self.program@,
            args: argument_views(self.args@),
            env: variable_views(self.env@),
            in_site_dir: self.in_site_dir,
            capture_stderr: self.capture_stderr,
        }
    }
}

/// What a backup stage asks its caller to do next. Every path is relative
/// to the output root.
#[derive(Debug, Clone, PartialEq, Eq)]
pub enum Action {
    /// Create the directory `dir`, and its parents, where absent.
    CreateDir { dir: String },
    /// Run `command` until it exits, with `input` on its standard input
    /// where there is one, and capture its standard output.
    Run { command: Invocation, input: Option<Vec<u8>> },
    /// Write `bytes` to `file` in the directory `dir`.
    Write { dir: String, file: String, bytes: Vec<u8> },
}

pub enum ActionView {
    CreateDir { dir: Seq<char> },
    Run { command: InvocationView, input: Option<Seq<u8>> },
    Write { dir: Seq<char>, file: Seq<char>, bytes: Seq<u8> },
}

impl View for Action {
    type V = ActionView;

    open spec fn view(&self) -> ActionView {
        match *self {
            Action::CreateDir { dir } => ActionView::CreateDir { dir: dir@ },
            Action::Run { command, input } => ActionView::Run {
                command: command@,
                input: match input {
                    Some(bytes) => Some(bytes@),
                    None => None,
                },
            },
            Action::Write { dir, file, bytes } => ActionView::Write {
                dir: dir@,
                file: file@,
                bytes: bytes@,
            },
        }
    }
}

/// The directory, under the output root, that receives the archives.
pub open spec fn backup_dir() -> Seq<char> {
    "forge_backup"@
}

/// The name of the directory that receives the archives.
pub fn backup_dir_name() -> (name: String)
    ensures
        name@ == backup_dir(),
{
    "forge_backup".to_owned()
}

/// How an action ended, where it could be carried out at all.
#[derive(Debug, Clone, PartialEq, Eq)]
pub struct Output {
    /// False where a program exited with a failure status. An action that
    /// runs no program reports true.
    pub success: bool,
    /// What the program wrote to standard output; empty for an action that
    /// runs no program.
    pub stdout: Vec<u8>,
    /// What the program wrote to standard error, where that was captured
    /// and the program failed; empty otherwise.
    pub stderr: String,
}

impl Output {
    /// The outcome of an action that went through and produced nothing.
    pub fn done() -> (r: Output)
        ensures
            r.success,
            r.stdout@ == Seq::<u8>::empty(),
            r.stderr@ == Seq::<char>::empty(),
    {
        Output { success: true, stdout: Vec::new(), stderr: String::new() }
    }
}

} // verus!
