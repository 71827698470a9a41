use vstd::prelude::*;

verus! {

/// Makes `std::io::Error` known as a type whose values are carried along
/// and never looked into.
#[verifier::external_type_specification]
#[verifier::external_body]
pub struct ExIoError(std::io::Error);

pub type AppResult<T> = Result<T, AppError>;

/// Why a stage of the backup gave up.
#[derive(Debug)]
pub enum AppError {
    /// No fingerprint matched the directory.
    UnknownSite,
    /// The site type has no credential extractor, its configuration file
    /// could not be read, or one of the three fields is absent from it.
    MissingDatabaseCredentials,
    /// The file system or a child process failed; the cause is kept.
    IoError(std::io::Error),
    /// The archiver exited with a failure status; holds what it wrote to
    /// standard error.
    BackupError(String),
}

/// Makes an I/O error of kind `Other` that carries `message`, with
/// `std::io::Error::new`. The value is opaque here, so nothing is claimed
/// of it.
#[verifier::external_body]
pub(crate) fn io_failure(message: &str) -> (r: std::io::Error) {
    std::io::Error::new(std::io::ErrorKind::Other, message)
}

impl AppError {
    /// The line that tells the user of this error. For an I/O error it is
    /// `IO Error: ` and what `Display` gives for the cause; for a backup
    /// error, `Error executing backup: ` and the text that the archiver
    /// left.
    pub fn message(&self) -> (r: String)
        ensures
            self is UnknownSite ==> r@ == "Unknown site type"@,
            self is MissingDatabaseCredentials ==> r@ == "Missing database credentials"@,
            self matches AppError::IoError(cause) ==> exists|text: String|
                r@ == "IO Error: "@ + text@
                    && #[trigger] vstd::string::to_string_from_display_ensures::<std::io::Error>(
                    &cause,
                    text,
                ),
            self matches AppError::BackupError(text) ==> r@ == "Error executing backup: "@ + text@,
    {
        match self {
            AppError::UnknownSite => "Unknown site type".to_owned(),
            AppError::MissingDatabaseCredentials => "Missing database credentials".to_owned(),
            AppError::IoError(cause) => {
                let text = cause.to_string();
                "IO Error: ".to_owned().concat(text.as_str())
            },
            AppError::BackupError(text) => {
                "Error executing backup: ".to_owned().concat(text.as_str())
            },
        }
    }
}

impl From<std::io::Error> for AppError {
    fn from(value: std::io::Error) -> (r: AppError) {
        AppError::IoError(value)
    }
}

impl vstd::std_specs::convert::FromSpecImpl<std::io::Error> for AppError {
    open spec fn obeys_from_spec() -> bool {
        true
    }

    open spec fn from_spec(value: std::io::Error) -> AppError {
        AppError::IoError(value)
    }
}

} // verus!
