//! The page that reports a failure.

use crate::errors::{AppError, StatusCode};
use vstd::prelude::*;
use vstd::string::StringExecFns;

verus! {

/// The error page: the status it is answered with and what it tells the
/// caller.
pub struct ErrorPage {
    status: StatusCode,
    msg: String,
}

/// What an error page says when nobody told it what to say.
pub open spec fn default_message() -> Seq<char> {
    "An unexpected error occurred"@
}

impl Default for ErrorPage {
    /// The page for an unexpected failure.
    fn default() -> (page: Self)
        ensures
            page.code() == 500,
            page.text() == default_message(),
    {
        ErrorPage::new()
    }
}

impl ErrorPage {
    /// The status of the page.
    pub closed spec fn code(&self) -> int {
        self.status.value()
    }

    /// The message of the page.
    pub closed spec fn text(&self) -> Seq<char> {
        self.msg@
    }

    /// The page for an unexpected failure: status 500 and a message to that
    /// effect.
    pub fn new() -> (page: Self)
        ensures
            page.code() == 500,
            page.text() == default_message(),
    {
        ErrorPage {
            status: StatusCode::internal_server_error(),
            msg: String::from_str("An unexpected error occurred"),
        }
    }

    /// The page with `status` in place of its status.
    pub fn set_status(self, status: StatusCode) -> (page: Self)
        ensures
            page.code() == status.value(),
            page.text() == self.text(),
    {
        let mut page = self;
        page.status = status;
        page
    }

    /// The page with `msg` in place of its message.
    pub fn set_message(self, msg: &str) -> (page: Self)
        ensures
            page.code() == self.code(),
            page.text() == msg@,
    {
        let mut page = self;
        page.msg = msg.to_owned();
        page
    }

    /// The page that reports `error`: the status and the message are the
    /// failure's own.
    pub fn for_error(error: &AppError) -> (page: Self)
        ensures
            page.code() == crate::errors::status_of(*error),
            page.text() == crate::errors::message_of(*error),
    {
        let text = error.message();
        ErrorPage::new().set_status(error.status()).set_message(text.as_str())
    }

    /// The status of the page.
    pub fn status(&self) -> (status: StatusCode)
        ensures
            status.value() == self.code(),
    {
        self.status
    }

    /// The message of the page.
    pub fn message(&self) -> (msg: &str)
        ensures
            msg@ == self.text(),
    {
        self.msg.as_str()
    }

    /// The title of the page: the word "Error" and the message.
    pub fn title(&self) -> (title: String)
        ensures
            title@ == "Error "@ + self.text(),
    {
        String::from_str("Error ").concat(self.msg.as_str())
    }
}

} // verus!
