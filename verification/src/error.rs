//! The errors that the ledger reports to its caller, and their stable codes.

use casper_types::ApiError;
use vstd::prelude::*;
use vstd::std_specs::convert::FromSpecImpl;

verus! {

/// A caller error. Each variant has a code that is stable across versions.
#[derive(Clone, Copy, Debug, PartialEq, Eq)]
pub enum Error {
    /// A transfer was attempted while the collection is paused.
    PermissionDenied,
    /// The lengths of the batch's lists differ.
    ArgumentsError,
    /// An identifier supplied for minting is live, or occurs twice.
    TokenIdAlreadyExists,
    /// The identifier has no current owner.
    TokenIdDoesntExist,
    /// The acting address does not hold enough of an identifier.
    NotAnOwner,
}

impl Error {
    /// The code of each error.
    pub open spec fn code_spec(self) -> u16 {
        match self {
            Error::PermissionDenied => 1,
            Error::ArgumentsError => 2,
            Error::TokenIdAlreadyExists => 3,
            Error::TokenIdDoesntExist => 4,
            Error::NotAnOwner => 5,
        }
    }

    /// The code under which the error crosses the boundary to the host.
    pub fn code(&self) -> (c: u16)
        ensures
            c == self.code_spec(),
            1 <= c <= 5,
    {
        match self {
            Error::PermissionDenied => 1,
            Error::ArgumentsError => 2,
            Error::TokenIdAlreadyExists => 3,
            Error::TokenIdDoesntExist => 4,
            Error::NotAnOwner => 5,
        }
    }
}

/// `casper_types::ApiError`, the host's error type, as an opaque value.
#[verifier::external_type_specification]
#[verifier::external_body]
pub struct ExApiError(ApiError);

/// The host error `ApiError::User(code)`, which the host reports as the
/// number `65536 + code`.
pub uninterp spec fn user_error(code: u16) -> ApiError;

/// Builds `ApiError::User(code)`.
#[verifier::external_body]
fn api_user_error(code: u16) -> (e: ApiError)
    ensures
        e == user_error(code),
{
    ApiError::User(code)
}

impl From<Error> for ApiError {
    /// The user error of the host that carries the error's code.
    fn from(error: Error) -> (e: ApiError) {
        api_user_error(error.code())
    }
}

impl FromSpecImpl<Error> for ApiError {
    open spec fn obeys_from_spec() -> bool {
        true
    }

    open spec fn from_spec(error: Error) -> ApiError {
        user_error(error.code_spec())
    }
}

} // verus!
