//! What each request is answered with, once the lookup service and the
//! durable store have said their part.

use crate::errors::{AppError, StatusCode};
use crate::url_store::StoreError;
use vstd::prelude::*;
use vstd::string::StringExecFns;

verus! {

/// What the message of a "not found" answer says.
pub open spec fn not_found_message() -> Seq<char> {
    "Url not found"@
}

/// The answer to a request to add a URL.
#[derive(Clone, Debug, PartialEq, Eq)]
pub enum AddUrlReply {
    /// The URL was added: send the caller to this path.
    Redirect(String),
    /// The URL was not added: answer with this status and text.
    Failure { status: StatusCode, body: String },
}

/// The answer to a request for a short key, from the outcome of its lookup:
/// the URL to redirect to when there is one, a 404 failure when the key is
/// not known, and the store's failure when the durable store failed.
pub fn get_redirect_to_url(found: Result<Option<String>, StoreError>) -> (reply: Result<String, AppError>)
    ensures
        match found {
            Ok(Some(url)) => reply == Ok::<String, AppError>(url),
            Ok(None) => reply matches Err(AppError::CustomError { code, msg }) && code.value() == 404 && msg@
                == not_found_message(),
            Err(cause) => reply == Err::<String, AppError>(AppError::DatabaseError(cause)),
        },
{
    match found {
        Ok(Some(url)) => Ok(url),
        Ok(None) => Err(AppError::custom(StatusCode::not_found(), "Url not found")),
        Err(cause) => Err(AppError::DatabaseError(cause)),
    }
}

/// The answer to a request to add a URL, from the outcome of the insert: a
/// redirect to the home page when the record was written, and a 500 failure
/// that quotes the store when it was not.
pub fn post_add_url(written: Result<String, StoreError>) -> (reply: AddUrlReply)
    ensures
        match written {
            Ok(_) => reply matches AddUrlReply::Redirect(path) && path@ == "/"@,
            Err(cause) => reply matches AddUrlReply::Failure { status, body } && status.value() == 500 && body@
                == "error: "@ + cause.message@,
        },
{
    match written {
        Ok(_) => AddUrlReply::Redirect(String::from_str("/")),
        Err(cause) => AddUrlReply::Failure {
            status: StatusCode::internal_server_error(),
            body: String::from_str("error: ").concat(cause.message.as_str()),
        },
    }
}

} // verus!
