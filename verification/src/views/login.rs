//! The login form.

use crate::errors::StatusCode;
use vstd::prelude::*;

verus! {

/// The login page: what the form is filled in with, whether it says that
/// the last attempt failed, and where to go after a login.
#[derive(Debug)]
pub struct LoginFormPage {
    prepopulated_email: Option<String>,
    show_invalid_credentials: bool,
    redirect_to: Option<String>,
}

/// What a caller sends when they submit the login form.
#[derive(Debug)]
pub struct LoginFormPayload {
    pub email: String,
    pub password: String,
    pub redirect_to: Option<String>,
}

impl LoginFormPage {
    /// The address the form is filled in with, if any.
    pub closed spec fn email(&self) -> Option<String> {
        self.prepopulated_email
    }

    /// Whether the page says that the last attempt failed.
    pub closed spec fn rejected(&self) -> bool {
        self.show_invalid_credentials
    }

    /// Where to go after a login, if anywhere in particular.
    pub closed spec fn target(&self) -> Option<String> {
        self.redirect_to
    }

    /// The status the page is answered with: 401 when it says that the last
    /// attempt failed, and 200 otherwise.
    pub open spec fn code(&self) -> int {
        if self.rejected() {
            401
        } else {
            200
        }
    }

    /// An empty form that reports no failed attempt.
    pub fn new() -> (page: Self)
        ensures
            page.email() is None,
            !page.rejected(),
            page.target() is None,
    {
        LoginFormPage { prepopulated_email: None, show_invalid_credentials: false, redirect_to: None }
    }

    /// The page with the form filled in with `email`.
    pub fn set_prepopulated_email(self, email: &str) -> (page: Self)
        ensures
            page.email() matches Some(filled) && filled@ == email@,
            page.rejected() == self.rejected(),
            page.target() == self.target(),
    {
        let mut page = self;
        page.prepopulated_email = Some(email.to_owned());
        page
    }

    /// The page, saying that the last attempt failed.
    pub fn show_invalid_credentials(self) -> (page: Self)
        ensures
            page.rejected(),
            page.email() == self.email(),
            page.target() == self.target(),
    {
        let mut page = self;
        page.show_invalid_credentials = true;
        page
    }

    /// The page with `maybe_redirect` as the place to go after a login.
    pub fn maybe_redirect_to(self, maybe_redirect: Option<String>) -> (page: Self)
        ensures
            page.target() == maybe_redirect,
            page.email() == self.email(),
            page.rejected() == self.rejected(),
    {
        let mut page = self;
        page.redirect_to = maybe_redirect;
        page
    }

    /// The status the page is answered with.
    pub fn status(&self) -> (status: StatusCode)
        ensures
            status.value() == self.code(),
    {
        if self.show_invalid_credentials {
            StatusCode::unauthorized()
        } else {
            StatusCode::ok()
        }
    }

    /// The address the form is filled in with, if any.
    pub fn prepopulated_email(&self) -> (email: &Option<String>)
        ensures
            *email == self.email(),
    {
        &self.prepopulated_email
    }

    /// Whether the page says that the last attempt failed.
    pub fn invalid_credentials_shown(&self) -> (shown: bool)
        ensures
            shown == self.rejected(),
    {
        self.show_invalid_credentials
    }

    /// Where to go after a login, if anywhere in particular.
    pub fn redirect_to(&self) -> (target: &Option<String>)
        ensures
            *target == self.target(),
    {
        &self.redirect_to
    }
}

} // verus!
