use forge_backup::db::Credentials;
use forge_backup::error::AppError;
use forge_backup::site::{laravel, wordpress};

const ENV: &str = "APP_NAME=Shop\nDB_DATABASE=shop\nDB_USERNAME=\"forge\"\nDB_PASSWORD=s3cret\n";

const WP: &str = "<?php\ndefine( 'DB_NAME', 'blog' );\ndefine( 'DB_USER', \"wp\" );\ndefine( 'DB_PASSWORD', 'pa\"ss' );\n";

fn without_line(text: &str, key: &str) -> String {
    text.lines()
        .filter(|line| !line.contains(key))
        .map(|line| format!("{}\n", line))
        .collect()
}

#[test]
fn laravel_credentials_are_read() {
    assert_eq!(
        laravel::get_credentials(Some(ENV)).unwrap(),
        Credentials {
            database: "shop".to_string(),
            username: "forge".to_string(),
            password: "s3cret".to_string(),
        }
    );
}

#[test]
fn laravel_credentials_are_all_or_nothing() {
    for key in ["DB_DATABASE", "DB_USERNAME", "DB_PASSWORD"] {
        let text = without_line(ENV, key);
        assert!(matches!(
            laravel::get_credentials(Some(&text)),
            Err(AppError::MissingDatabaseCredentials)
        ));
    }
}

#[test]
fn laravel_unreadable_file_gives_no_credentials() {
    assert!(matches!(
        laravel::get_credentials(None),
        Err(AppError::MissingDatabaseCredentials)
    ));
}

#[test]
fn laravel_empty_password_counts_as_present() {
    let text = "DB_DATABASE=shop\nDB_USERNAME=forge\nDB_PASSWORD=\n";
    let credentials = laravel::get_credentials(Some(text)).unwrap();
    assert_eq!(credentials.password, "");
}

#[test]
fn laravel_malformed_field_counts_as_missing() {
    let text = "DB_DATABASE=shop\nDB_USERNAME=forge\nDB_PASSWORD=\"open\n";
    assert!(matches!(
        laravel::get_credentials(Some(text)),
        Err(AppError::MissingDatabaseCredentials)
    ));
}

#[test]
fn wordpress_credentials_are_read() {
    assert_eq!(
        wordpress::get_credentials(Some(WP)).unwrap(),
        Credentials {
            database: "blog".to_string(),
            username: "wp".to_string(),
            password: "pa\"ss".to_string(),
        }
    );
}

#[test]
fn wordpress_credentials_are_all_or_nothing() {
    for key in ["DB_NAME", "DB_USER", "DB_PASSWORD"] {
        let text = without_line(WP, key);
        assert!(matches!(
            wordpress::get_credentials(Some(&text)),
            Err(AppError::MissingDatabaseCredentials)
        ));
    }
}

#[test]
fn wordpress_unreadable_file_gives_no_credentials() {
    assert!(matches!(
        wordpress::get_credentials(None),
        Err(AppError::MissingDatabaseCredentials)
    ));
}

#[test]
fn each_dialect_reads_its_own_file_only() {
    assert!(matches!(
        laravel::get_credentials(Some(WP)),
        Err(AppError::MissingDatabaseCredentials)
    ));
    assert!(matches!(
        wordpress::get_credentials(Some(ENV)),
        Err(AppError::MissingDatabaseCredentials)
    ));
}

#[test]
fn config_file_names() {
    assert_eq!(laravel::config_file(), ".env");
    assert_eq!(wordpress::config_file(), "wp-config.php");
}
