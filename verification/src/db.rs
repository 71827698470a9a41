use vstd::prelude::*;

use crate::error::{io_failure, AppError, AppResult};
use crate::pipe::{Action, ActionView, Argument, ArgumentView, Invocation, InvocationView, Output};
use crate::pipe::{argument_views, backup_dir, backup_dir_name, variable_views};

verus! {

/// What the dump utility needs in order to read a database.
#[derive(Debug, Clone, PartialEq, Eq)]
pub struct Credentials {
    pub database: String,
    pub username: String,
    pub password: String,
}

pub struct CredentialsView {
    pub database: Seq<char>,
    pub username: Seq<char>,
    pub password: Seq<char>,
}

impl View for Credentials {
    type V = CredentialsView;

    open spec fn view(&self) -> CredentialsView {
        CredentialsView {
            database: self.database@,
            username: self.username@,
            password: self.password@,
        }
    }
}

/// The step of the database backup whose outcome is being reported.
#[derive(Debug, Clone, Copy, PartialEq, Eq, Structural)]
pub enum DumpStage {
    /// Nothing was asked for yet.
    Start,
    /// The backup directory was to be created.
    Preparing,
    /// The dump utility was to run.
    Dumping,
    /// The compressor was to run on the dump.
    Compressing,
    /// The compressed dump was to be written.
    Writing,
}

/// The name of the compressed database dump.
pub open spec fn dump_file() -> Seq<char> {
    "backup.sql.gz"@
}

/// The call of the dump utility. The password travels in the environment
/// and is no argument, so that a process listing does not show it.
pub open spec fn dump_command(credentials: CredentialsView) -> InvocationView {
    InvocationView {
        program: "mysqldump"@,
        args: seq![
            ArgumentView::Text("-u"@),
            ArgumentView::Text(credentials.username),
            ArgumentView::Text("--no-tablespaces"@),
            ArgumentView::Text(credentials.database),
        ],
        env: seq![("MYSQL_PWD"@, credentials.password)],
        in_site_dir: false,
        capture_stderr: false,
    }
}

/// The call of the compressor, which reads the dump on standard input and
/// writes the compressed dump to standard output.
pub open spec fn compress_command() -> InvocationView {
    InvocationView {
        program: "gzip"@,
        args: seq![ArgumentView::Text("-c9"@)],
        env: Seq::empty(),
        in_site_dir: false,
        capture_stderr: false,
    }
}

/// What follows a step of the database backup that went through: the next
/// step and what to do for it, or nothing where the backup is complete.
/// `stdout` is what the step that went through wrote to standard output.
pub open spec fn dump_step(
    credentials: CredentialsView,
    stage: DumpStage,
    stdout: Seq<u8>,
) -> Option<(DumpStage, ActionView)> {
    match stage {
        DumpStage::Start => Some(
            (DumpStage::Preparing, ActionView::CreateDir { dir: backup_dir() }),
        ),
        DumpStage::Preparing => Some(
            (
                DumpStage::Dumping,
                ActionView::Run { command: dump_command(credentials), input: None },
            ),
        ),
        DumpStage::Dumping => Some(
            (
                DumpStage::Compressing,
                ActionView::Run { command: compress_command(), input: Some(stdout) },
            ),
        ),
        DumpStage::Compressing => Some(
            (
                DumpStage::Writing,
                ActionView::Write { dir: backup_dir(), file: dump_file(), bytes: stdout },
            ),
        ),
        DumpStage::Writing => None,
    }
}

/// The view of a step that is still to be taken.
pub open spec fn dump_step_view(step: Option<(DumpStage, Action)>) -> Option<
    (DumpStage, ActionView),
> {
    match step {
        Some((stage, action)) => Some((stage, action@)),
        None => None,
    }
}

fn dump_invocation(credentials: &Credentials) -> (command: Invocation)
    ensures
        command@ == dump_command(credentials@),
{
    let mut args: Vec<Argument> = Vec::new();
    args.push(Argument::Text("-u".to_owned()));
    args.push(Argument::Text(credentials.username.clone()));
    args.push(Argument::Text("--no-tablespaces".to_owned()));
    args.push(Argument::Text(credentials.database.clone()));
    let mut env: Vec<(String, String)> = Vec::new();
    env.push(("MYSQL_PWD".to_owned(), credentials.password.clone()));
    proof {
        assert(argument_views(args@) =~= dump_command(credentials@).args);
        assert(variable_views(env@) =~= dump_command(credentials@).env);
    }
    Invocation {
        program: "mysqldump".to_owned(),
        args,
        env,
        in_site_dir: false,
        capture_stderr: false,
    }
}

fn compress_invocation() -> (command: Invocation)
    ensures
        command@ == compress_command(),
{
    let mut args: Vec<Argument> = Vec::new();
    args.push(Argument::Text("-c9".to_owned()));
    let env: Vec<(String, String)> = Vec::new();
    proof {
        assert(argument_views(args@) =~= compress_command().args);
        assert(variable_views(env@) =~= compress_command().env);
    }
    Invocation { program: "gzip".to_owned(), args, env, in_site_dir: false, capture_stderr: false }
}

/// Takes the database backup one step further.
///
/// The caller starts with `DumpStage::Start` and an outcome that went
/// through, carries out the action it gets back, and reports how that
/// ended together with the stage it got back, until there is nothing left
/// to do. The steps are: create the backup directory, run the dump utility,
/// run the compressor on what the dump utility wrote, write what the
/// compressor wrote to the dump file. A step that could not be carried out,
/// or a program that exited with a failure status, ends the backup with an
/// I/O error.
pub fn backup(
    credentials: &Credentials,
    stage: DumpStage,
    outcome: Result<Output, std::io::Error>,
) -> (r: AppResult<Option<(DumpStage, Action)>>)
    ensures
        outcome matches Err(cause) ==> r matches Err(AppError::IoError(kept)) && kept == cause,
        outcome matches Ok(output) ==> (if output.success {
            r matches Ok(step) && dump_step_view(step) == dump_step(
                credentials@,
                stage,
                output.stdout@,
            )
        } else {
            r matches Err(AppError::IoError(_))
        }),
{
    let output = match outcome {
        Ok(output) => output,
        Err(cause) => {
            return Err(AppError::IoError(cause));
        },
    };
    if !output.success {
        let cause = match stage {
            DumpStage::Dumping => io_failure("mysqldump exited with a failure status"),
            DumpStage::Compressing => io_failure("gzip exited with a failure status"),
            _ => io_failure("a step of the database backup failed"),
        };
        return Err(AppError::IoError(cause));
    }
    match stage {
        DumpStage::Start => Ok(
            Some((DumpStage::Preparing, Action::CreateDir { dir: backup_dir_name() })),
        ),
        DumpStage::Preparing => Ok(
            Some(
                (
                    DumpStage::Dumping,
                    Action::Run { command: dump_invocation(credentials), input: None },
                ),
            ),
        ),
        DumpStage::Dumping => Ok(
            Some(
                (
                    DumpStage::Compressing,
                    Action::Run { command: compress_invocation(), input: Some(output.stdout) },
                ),
            ),
        ),
        DumpStage::Compressing => Ok(
            Some(
                (
                    DumpStage::Writing,
                    Action::Write {
                        dir: backup_dir_name(),
                        file: "backup.sql.gz".to_owned(),
                        bytes: output.stdout,
                    },
                ),
            ),
        ),
        DumpStage::Writing => Ok(None),
    }
}

/// The arguments of the dump utility do not depend on the password: two
/// sets of credentials that differ in the password alone give the same
/// command line.
pub proof fn lemma_password_is_no_argument(a: CredentialsView, b: CredentialsView)
    requires
        a.database == b.database,
        a.username == b.username,
    ensures
        dump_command(a).program == dump_command(b).program,
        dump_command(a).args == dump_command(b).args,
{
}

} // verus!
