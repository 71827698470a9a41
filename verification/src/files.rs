use vstd::prelude::*;

use crate::error::{AppError, AppResult};
use crate::pipe::{Action, ActionView, Argument, ArgumentView, Invocation, InvocationView, Output};
use crate::pipe::{argument_views, backup_dir, backup_dir_name, variable_views};

verus! {

/// The step of the file backup whose outcome is being reported.
#[derive(Debug, Clone, Copy, PartialEq, Eq, Structural)]
pub enum ArchiveStage {
    /// Nothing was asked for yet.
    Start,
    /// The backup directory was to be created.
    Preparing,
    /// The archiver was to run.
    Archiving,
}

/// The name of the archive of the file tree.
pub open spec fn archive_file() -> Seq<char> {
    "backup.files.tar.gz"@
}

/// The call of the archiver: it runs in the site directory, packs the whole
/// tree and writes the compressed archive itself.
pub open spec fn archive_command() -> InvocationView {
    InvocationView {
        program: "tar"@,
        args: seq![
            ArgumentView::Text("-zcpvf"@),
            ArgumentView::Path { dir: backup_dir(), file: archive_file() },
            ArgumentView::Text("."@),
        ],
        env: Seq::empty(),
        in_site_dir: true,
        capture_stderr: true,
    }
}

/// What follows a step of the file backup that went through: the next step
/// and what to do for it, or nothing where the backup is complete.
pub open spec fn archive_step(stage: ArchiveStage) -> Option<(ArchiveStage, ActionView)> {
    match stage {
        ArchiveStage::Start => Some(
            (ArchiveStage::Preparing, ActionView::CreateDir { dir: backup_dir() }),
        ),
        ArchiveStage::Preparing => Some(
            (ArchiveStage::Archiving, ActionView::Run { command: archive_command(), input: None }),
        ),
        ArchiveStage::Archiving => None,
    }
}

/// The view of a step that is still to be taken.
pub open spec fn archive_step_view(step: Option<(ArchiveStage, Action)>) -> Option<
    (ArchiveStage, ActionView),
> {
    match step {
        Some((stage, action)) => Some((stage, action@)),
        None => None,
    }
}

fn archive_invocation() -> (command: Invocation)
    ensures
        command@ == archive_command(),
{
    let mut args: Vec<Argument> = Vec::new();
    args.push(Argument::Text("-zcpvf".to_owned()));
    args.push(Argument::Path { dir: backup_dir_name(), file: "backup.files.tar.gz".to_owned() });
    args.push(Argument::Text(".".to_owned()));
    let env: Vec<(String, String)> = Vec::new();
    proof {
        assert(argument_views(args@) =~= archive_command().args);
        assert(variable_views(env@) =~= archive_command().env);
    }
    Invocation { program: "tar".to_owned(), args, env, in_site_dir: true, capture_stderr: true }
}

/// Takes the file backup one step further.
///
/// The caller starts with `ArchiveStage::Start` and an outcome that went
/// through, carries out the action it gets back, and reports how that ended
/// together with the stage it got back, until there is nothing left to do.
/// The steps are: create the backup directory, run the archiver. A step
/// that could not be carried out ends the backup with an I/O error; a
/// failure status ends it with a backup error that carries what was
/// captured from standard error, unchanged.
pub fn backup(stage: ArchiveStage, outcome: Result<Output, std::io::Error>) -> (r: AppResult<
    Option<(ArchiveStage, Action)>,
>)
    ensures
        outcome matches Err(cause) ==> r matches Err(AppError::IoError(kept)) && kept == cause,
        outcome matches Ok(output) ==> (if output.success {
            r matches Ok(step) && archive_step_view(step) == archive_step(stage)
        } else {
            r matches Err(AppError::BackupError(text)) && text@ == output.stderr@
        }),
{
    let output = match outcome {
        Ok(output) => output,
        Err(cause) => {
            return Err(AppError::IoError(cause));
        },
    };
    if !output.success {
        return Err(AppError::BackupError(output.stderr));
    }
    match stage {
        ArchiveStage::Start => Ok(
            Some((ArchiveStage::Preparing, Action::CreateDir { dir: backup_dir_name() })),
        ),
        ArchiveStage::Preparing => Ok(
            Some(
                (ArchiveStage::Archiving, Action::Run { command: archive_invocation(), input: None }),
            ),
        ),
        ArchiveStage::Archiving => Ok(None),
    }
}

} // verus!
