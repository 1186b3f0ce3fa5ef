//! The pages, as the values they are rendered from.
//!
//! What a page shows is decided here; turning it into HTML is left to whoever
//! renders it.

pub mod dashboard;
pub mod error;
pub mod login;

pub use dashboard::{DashboardPageBuilder, UrlTableRow};
pub use error::ErrorPage;
pub use login::{LoginFormPage, LoginFormPayload};
