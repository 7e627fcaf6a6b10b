//! Why an export fails.

use pgp::errors::Error as PgpError;
use std::io::Error as IoError;
use vstd::prelude::*;

verus! {

/// `pgp::errors::Error`, carried as it comes.
#[verifier::external_type_specification]
#[verifier::external_body]
pub struct ExPgpError(PgpError);

/// `std::io::Error`, carried as it comes.
#[verifier::external_type_specification]
#[verifier::external_body]
pub struct ExIoError(IoError);

/// Error when exporting the keyring.
#[derive(Debug)]
#[non_exhaustive]
pub enum Error {
    /// PGP processing failed.
    Pgp(PgpError),
    /// I/O operation failed.
    Io(IoError),
}

} // verus!
