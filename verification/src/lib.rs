//! Synchronization and end-to-end encryption engine of a local-first note
//! application.
//!
//! - [`crypto`]: key derivation and authenticated encryption of note contents.
//! - [`keystore`]: the single slot that holds the derived key.
//! - [`db`]: notes, the tables of the repository in memory, and their commands.
//! - [`repo`]: the repository, its tables mirrored to an SQLite database.
//! - [`sync`]: when a sync may run, what a pulled page stores, what is pushed.
//! - [`controller`]: what a user's intent or a status event asks for.
//! - [`config`]: identity tokens and settings as values.
//! - [`text`]: order and equality of texts, titles.
//! - [`menu`]: the status menu and the selection in a list.
//! - [`markdown`]: what each piece of a note's text is, for the preview.
//!
//! Nothing here reads a file, opens a socket or waits: the library takes what
//! was read or received and says what follows.

pub mod config;
pub mod controller;
pub mod crypto;
pub mod db;
pub mod keystore;
pub mod markdown;
pub mod menu;
pub mod repo;
pub mod sync;
pub mod text;
