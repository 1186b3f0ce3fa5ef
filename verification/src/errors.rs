//! What can go wrong while a request is served, and the HTTP status it is
//! answered with.

use crate::url_store::StoreError;
use vstd::prelude::*;
use vstd::string::StringExecFns;

verus! {

/// An HTTP status code: a number from 100 to 999.
#[derive(Clone, Copy, Debug, PartialEq, Eq, Structural)]
pub struct StatusCode {
    code: u16,
}

/// Whether `code` can be an HTTP status code.
pub open spec fn is_status(code: int) -> bool {
    100 <= code <= 999
}

impl StatusCode {
    #[verifier::type_invariant]
    spec fn in_range(self) -> bool {
        is_status(self.code as int)
    }

    /// The number of the status.
    pub closed spec fn value(self) -> int {
        self.code as int
    }

    /// The status with number `code`, if there is one.
    pub fn from_u16(code: u16) -> (status: Option<StatusCode>)
        ensures
            status is Some == is_status(code as int),
            status matches Some(s) ==> s.value() == code,
    {
        if 100 <= code && code <= 999 {
            Some(StatusCode { code })
        } else {
            None
        }
    }

    /// The number of the status.
    pub fn as_u16(&self) -> (code: u16)
        ensures
            code == self.value(),
            is_status(code as int),
    {
        proof {
            use_type_invariant(self);
        }
        self.code
    }

    /// 200, the request succeeded.
    pub fn ok() -> (status: StatusCode)
        ensures
            status.value() == 200,
    {
        StatusCode { code: 200 }
    }

    /// 401, the caller has not shown who they are.
    pub fn unauthorized() -> (status: StatusCode)
        ensures
            status.value() == 401,
    {
        StatusCode { code: 401 }
    }

    /// 404, there is no such thing.
    pub fn not_found() -> (status: StatusCode)
        ensures
            status.value() == 404,
    {
        StatusCode { code: 404 }
    }

    /// 500, the server failed.
    pub fn internal_server_error() -> (status: StatusCode)
        ensures
            status.value() == 500,
    {
        StatusCode { code: 500 }
    }
}

/// A failure to serve a request.
#[derive(Clone, Debug, PartialEq, Eq)]
pub enum AppError {
    /// The durable store failed.
    DatabaseError(StoreError),
    /// Anything else, with the status to answer with and what to tell the
    /// caller.
    CustomError { code: StatusCode, msg: String },
}

/// The status that a failure is answered with: 500 for a failure of the
/// durable store, and the failure's own status otherwise.
pub open spec fn status_of(error: AppError) -> int {
    match error {
        AppError::DatabaseError(_) => 500,
        AppError::CustomError { code, .. } => code.value(),
    }
}

/// What a failure tells the caller.
pub open spec fn message_of(error: AppError) -> Seq<char> {
    match error {
        AppError::DatabaseError(cause) => "Sqlite/Sqlx error: "@ + cause.message@,
        AppError::CustomError { msg, .. } => msg@,
    }
}

impl AppError {
    /// A failure with a status and a message of the caller's choosing.
    pub fn custom(code: StatusCode, msg: &str) -> (error: AppError)
        ensures
            error matches AppError::CustomError { code: c, msg: m } && c == code && m@ == msg@,
    {
        AppError::CustomError { code, msg: msg.to_owned() }
    }

    /// The status to answer with.
    pub fn status(&self) -> (status: StatusCode)
        ensures
            status.value() == status_of(*self),
    {
        match self {
            AppError::DatabaseError(_) => StatusCode::internal_server_error(),
            AppError::CustomError { code, .. } => *code,
        }
    }

    /// What to tell the caller.
    pub fn message(&self) -> (text: String)
        ensures
            text@ == message_of(*self),
    {
        match self {
            AppError::DatabaseError(cause) => {
                String::from_str("Sqlite/Sqlx error: ").concat(cause.message.as_str())
            },
            AppError::CustomError { msg, .. } => msg.clone(),
        }
    }
}

} // verus!
