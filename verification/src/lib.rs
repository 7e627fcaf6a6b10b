//! Web Key Directory export.
//!
//! Maps every user identity of every certificate in an OpenPGP keyring to
//! its place in a Web Key Directory and lists, in order, the directory and
//! file operations that publish the keyring there.
//!
//! The work is done in three stages. [`keyring`] reads the certificates of
//! a keyring. [`identity`] maps each user identity that holds an e-mail
//! address of an allowed domain to its entry: the domain and the hashed
//! local part. [`writer`] turns each entry into the steps that make its
//! directory, empty the policy file and write the key file. [`export`]
//! puts the stages together, and [`options`] holds what steers them.
//!
//! The library touches no file. It hands out the steps as a [`Plan`], for
//! the caller to perform below the well-known directory, or to try out on
//! a [`Directory`] in memory. [`laws`] states what holds of every export.

pub mod cli;
pub mod directory;
pub mod error;
pub mod export;
pub mod identity;
pub mod keyring;
pub mod laws;
pub mod options;
pub mod path;
pub mod text;
pub mod writer;

pub use crate::directory::Directory;
pub use crate::error::Error;
pub use crate::export::{export, export_certificates, Plan};
pub use crate::keyring::Certificate;
pub use crate::options::{Options, Variant};
pub use crate::writer::Step;
