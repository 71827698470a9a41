use forge_backup::error::AppError;

#[test]
fn message_of_unknown_site() {
    assert_eq!(AppError::UnknownSite.message(), "Unknown site type");
}

#[test]
fn message_of_missing_credentials() {
    assert_eq!(
        AppError::MissingDatabaseCredentials.message(),
        "Missing database credentials"
    );
}

#[test]
fn message_of_io_error() {
    let cause = std::io::Error::new(std::io::ErrorKind::NotFound, "Home directory not found");
    assert_eq!(
        AppError::IoError(cause).message(),
        "IO Error: Home directory not found"
    );
}

#[test]
fn message_of_backup_error() {
    assert_eq!(
        AppError::BackupError("tar: .: Cannot open\n".to_string()).message(),
        "Error executing backup: tar: .: Cannot open\n"
    );
    assert_eq!(
        AppError::BackupError(String::new()).message(),
        "Error executing backup: "
    );
}

#[test]
fn io_error_converts_and_keeps_its_cause() {
    let cause = std::io::Error::new(std::io::ErrorKind::PermissionDenied, "denied");
    match AppError::from(cause) {
        AppError::IoError(kept) => {
            assert_eq!(kept.kind(), std::io::ErrorKind::PermissionDenied);
            assert_eq!(kept.to_string(), "denied");
        }
        other => panic!("converted to {:?}", other),
    }
}
