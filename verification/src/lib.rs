//! Backs up a web site: finds out which framework a directory holds, reads
//! the database credentials from the configuration file of that framework,
//! and plans the dump of the database and the archive of the files.
//!
//! The library decides and the caller acts. It never touches the file
//! system and starts no program: the caller tells it which paths exist and
//! what the configuration file holds, carries out the actions that the
//! backup stages ask for, and reports how each ended.
//!
//! [`site::Site`] is the pipeline. Its type says which stages are behind
//! it, so that a stage before its time does not compile.

pub mod args;
pub mod db;
pub mod env;
pub mod error;
pub mod files;
pub mod pipe;
pub mod site;
pub mod text;
