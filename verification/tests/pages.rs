use shortlink::errors::{AppError, StatusCode};
use shortlink::handlers::{get_redirect_to_url, post_add_url, AddUrlReply};
use shortlink::url_store::{ShortUrlRow, StoreError};
use shortlink::views::{DashboardPageBuilder, ErrorPage, LoginFormPage, UrlTableRow};

fn failure(text: &str) -> StoreError {
    StoreError { message: text.to_string() }
}

#[test]
fn status_code_is_a_number_from_100_to_999() {
    assert!(StatusCode::from_u16(99).is_none());
    assert!(StatusCode::from_u16(0).is_none());
    assert!(StatusCode::from_u16(1000).is_none());
    assert!(StatusCode::from_u16(u16::MAX).is_none());
    assert_eq!(StatusCode::from_u16(100).unwrap().as_u16(), 100);
    assert_eq!(StatusCode::from_u16(999).unwrap().as_u16(), 999);
    assert_eq!(StatusCode::from_u16(302).unwrap().as_u16(), 302);
}

#[test]
fn named_status_codes() {
    assert_eq!(StatusCode::ok().as_u16(), 200);
    assert_eq!(StatusCode::unauthorized().as_u16(), 401);
    assert_eq!(StatusCode::not_found().as_u16(), 404);
    assert_eq!(StatusCode::internal_server_error().as_u16(), 500);
    assert_eq!(StatusCode::from_u16(404), Some(StatusCode::not_found()));
}

#[test]
fn custom_error_keeps_status_and_message() {
    let error = AppError::custom(StatusCode::not_found(), "Url not found");
    assert_eq!(error.status().as_u16(), 404);
    assert_eq!(error.message(), "Url not found");
    assert_eq!(
        error,
        AppError::CustomError { code: StatusCode::not_found(), msg: "Url not found".to_string() }
    );
}

#[test]
fn database_error_is_a_500_that_names_the_store() {
    let error = AppError::DatabaseError(failure("no such table: shorturls"));
    assert_eq!(error.status().as_u16(), 500);
    assert_eq!(error.message(), "Sqlite/Sqlx error: no such table: shorturls");
}

#[test]
fn redirect_goes_to_the_url_that_was_found() {
    assert_eq!(get_redirect_to_url(Ok(Some("http://long".to_string()))), Ok("http://long".to_string()));
}

#[test]
fn unknown_key_is_a_404() {
    let reply = get_redirect_to_url(Ok(None));
    assert_eq!(reply, Err(AppError::custom(StatusCode::not_found(), "Url not found")));
    assert_eq!(reply.unwrap_err().status().as_u16(), 404);
}

#[test]
fn store_failure_is_a_500_and_no_404() {
    let reply = get_redirect_to_url(Err(failure("connection lost")));
    assert_eq!(reply, Err(AppError::DatabaseError(failure("connection lost"))));
    assert_eq!(reply.unwrap_err().status().as_u16(), 500);
}

#[test]
fn added_url_redirects_home() {
    assert_eq!(post_add_url(Ok("abcd1234".to_string())), AddUrlReply::Redirect("/".to_string()));
}

#[test]
fn failed_add_is_a_500_that_quotes_the_store() {
    assert_eq!(
        post_add_url(Err(failure("UNIQUE constraint failed"))),
        AddUrlReply::Failure {
            status: StatusCode::internal_server_error(),
            body: "error: UNIQUE constraint failed".to_string()
        }
    );
}

#[test]
fn error_page_defaults() {
    let page = ErrorPage::new();
    assert_eq!(page.status().as_u16(), 500);
    assert_eq!(page.message(), "An unexpected error occurred");
    assert_eq!(page.title(), "Error An unexpected error occurred");
}

#[test]
fn default_error_page_is_the_new_one() {
    let page = ErrorPage::default();
    assert_eq!(page.status().as_u16(), 500);
    assert_eq!(page.message(), "An unexpected error occurred");
}

#[test]
fn error_page_setters_change_one_thing_each() {
    let page = ErrorPage::new().set_status(StatusCode::not_found());
    assert_eq!(page.status().as_u16(), 404);
    assert_eq!(page.message(), "An unexpected error occurred");
    let page = page.set_message("Url not found");
    assert_eq!(page.status().as_u16(), 404);
    assert_eq!(page.message(), "Url not found");
    assert_eq!(page.title(), "Error Url not found");
}

#[test]
fn error_page_for_an_error_shows_the_error() {
    let page = ErrorPage::for_error(&AppError::custom(StatusCode::not_found(), "Url not found"));
    assert_eq!(page.status().as_u16(), 404);
    assert_eq!(page.message(), "Url not found");
    let page = ErrorPage::for_error(&AppError::DatabaseError(failure("locked")));
    assert_eq!(page.status().as_u16(), 500);
    assert_eq!(page.message(), "Sqlite/Sqlx error: locked");
}

#[test]
fn login_page_is_200_until_credentials_were_rejected() {
    let page = LoginFormPage::new();
    assert_eq!(page.status().as_u16(), 200);
    assert!(!page.invalid_credentials_shown());
    assert_eq!(page.prepopulated_email(), &None);
    assert_eq!(page.redirect_to(), &None);
    let page = page.show_invalid_credentials();
    assert_eq!(page.status().as_u16(), 401);
    assert!(page.invalid_credentials_shown());
}

#[test]
fn login_page_builders_change_one_thing_each() {
    let page = LoginFormPage::new()
        .set_prepopulated_email("me@example.org")
        .maybe_redirect_to(Some("/next".to_string()))
        .show_invalid_credentials();
    assert_eq!(page.prepopulated_email(), &Some("me@example.org".to_string()));
    assert_eq!(page.redirect_to(), &Some("/next".to_string()));
    assert!(page.invalid_credentials_shown());
    let page = page.maybe_redirect_to(None);
    assert_eq!(page.redirect_to(), &None);
    assert_eq!(page.prepopulated_email(), &Some("me@example.org".to_string()));
    assert_eq!(page.status().as_u16(), 401);
}

fn row(key: &str, url: &str, created_at: i64) -> ShortUrlRow {
    ShortUrlRow { shorturl: key.to_string(), longurl: url.to_string(), created_at }
}

#[test]
fn dashboard_lists_the_rows_it_was_given() {
    let page = DashboardPageBuilder::new();
    assert!(page.rows().is_empty());
    let page = page.set_rows(vec![row("new", "http://b", 2), row("old", "http://a", 1)]);
    assert_eq!(page.rows().len(), 2);
    assert_eq!(page.rows()[0].shorturl, "new");
    assert_eq!(page.rows()[1].longurl, "http://a");
    let page = page.set_rows(vec![row("only", "http://c", 3)]);
    assert_eq!(page.rows().len(), 1);
    assert_eq!(page.rows()[0].created_at, 3);
}

#[test]
fn table_row_is_no_fragment_unless_asked() {
    let record = row("abc", "http://long", 7);
    let shown = UrlTableRow::new(&record);
    assert!(!shown.hx());
    assert_eq!(shown.data().shorturl, "abc");
    let shown = shown.is_hx(true);
    assert!(shown.hx());
    assert_eq!(shown.data().longurl, "http://long");
    assert!(!shown.is_hx(false).hx());
}
