use vstd::prelude::*;

use crate::db::{Credentials, CredentialsView};
use crate::env::{env_value, extract_env_var};
use crate::error::{AppError, AppResult};

verus! {

/// The credentials that a Laravel environment file holds, if it holds all
/// three of `DB_DATABASE`, `DB_USERNAME` and `DB_PASSWORD`.
pub open spec fn credentials_in(t: Seq<char>) -> Option<CredentialsView> {
    match (
        env_value(t, "DB_DATABASE"@),
        env_value(t, "DB_USERNAME"@),
        env_value(t, "DB_PASSWORD"@),
    ) {
        (Some(database), Some(username), Some(password)) => Some(
            CredentialsView { database, username, password },
        ),
        _ => None,
    }
}

/// The name, under the site root, of the file that holds the credentials of
/// a Laravel site.
pub fn config_file() -> (name: &'static str)
    ensures
        name@ == ".env"@,
{
    ".env"
}

/// Reads the database credentials of a Laravel site from the text of its
/// environment file; `None` stands for a file that could not be read.
///
/// All three of `DB_DATABASE`, `DB_USERNAME` and `DB_PASSWORD` must be
/// assigned: with one of them missing there are no credentials, whatever
/// the other two are.
pub fn get_credentials(contents: Option<&str>) -> (r: AppResult<Credentials>)
    ensures
        match contents {
            Some(text) => match credentials_in(text@) {
                Some(found) => r matches Ok(credentials) && credentials@ == found,
                None => r matches Err(e) && e is MissingDatabaseCredentials,
            },
            None => r matches Err(e) && e is MissingDatabaseCredentials,
        },
{
    if let Some(text) = contents {
        let db_name = extract_env_var(text, "DB_DATABASE");
        let username = extract_env_var(text, "DB_USERNAME");
        let password = extract_env_var(text, "DB_PASSWORD");
        if let (Some(database), Some(username), Some(password)) = (db_name, username, password) {
            return Ok(Credentials { database, username, password });
        }
    }
    Err(AppError::MissingDatabaseCredentials)
}

/// Credentials are all or nothing: the three values make credentials
/// exactly where each of them is assigned, and they are these values.
pub proof fn lemma_all_or_nothing(t: Seq<char>)
    ensures
        credentials_in(t) is Some <==> env_value(t, "DB_DATABASE"@) is Some && env_value(
            t,
            "DB_USERNAME"@,
        ) is Some && env_value(t, "DB_PASSWORD"@) is Some,
        credentials_in(t) matches Some(found) ==> env_value(t, "DB_DATABASE"@) == Some(
            found.database,
        ) && env_value(t, "DB_USERNAME"@) == Some(found.username) && env_value(
            t,
            "DB_PASSWORD"@,
        ) == Some(found.password),
{
}

} // verus!
