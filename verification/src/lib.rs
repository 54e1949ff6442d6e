//! Keeps values in SOPS-encrypted files in step with the output of shell
//! commands that the files themselves declare.
//!
//! A file binds a command to a key by a comment line above it:
//!
//! ```text
//! # shell: pass show database
//! db_password: old
//! ```
//!
//! [`parser`] finds these bindings in decrypted text, [`store`] says how the
//! encryption tool is asked to decrypt a file and to set a key, and
//! [`sync`] decides, step by step, what a run over a batch of files does.
//! The library starts no process: the caller runs what it is told to run and
//! hands the outcome back.

pub mod parser;
pub mod pattern;
pub mod store;
pub mod sync;
pub mod text;
