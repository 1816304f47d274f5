use cauldron::add_bookmark::{
    add_failure_message, AddBookmarkAction, AddBookmarkCommandOutput, AddBookmarkDialog,
    AddBookmarkInput, AddBookmarkOutput,
};
use cauldron::article::{parse_instapaper_response, Article, ArticleInput, ArticleOutput, InstapaperBookmark};
use cauldron::instapaper::{
    add_bookmark_body, added_bookmark, api_error, bookmarks_of, parse_token_response, status_error,
    verified_user, xauth_body, xauth_form_from, ErrorResponse, InstapaperError, InstapaperResponse, InstapaperUser,
    TokenPair,
};
use cauldron::login::{
    login_failure_message, login_succeeded, LoginAction, LoginCommandOutput, LoginDialog,
    LoginInput, LoginOutput,
};
use cauldron::numeral::signed_decimal_text;
use cauldron::pocket::{
    authorize_uri_from, encode_pocket_uri, PocketAccessTokenRequest, PocketArchiveEntryRequest,
    PocketCodeResponse, PocketEntriesRequest, PocketInitiateOauthRequest,
};

fn bookmark(id: i64, title: &str, url: &str) -> InstapaperBookmark {
    InstapaperBookmark {
        bookmark_id: id,
        title: title.to_owned(),
        url: url.to_owned(),
        hash: "abc123".to_owned(),
        description: String::new(),
        starred: "0".to_owned(),
    }
}

fn mock_tokens() -> TokenPair {
    TokenPair {
        oauth_token: "test_token".to_string(),
        oauth_token_secret: "test_secret".to_string(),
    }
}

#[test]
fn test_parse_instapaper_response() {
    let bookmarks = vec![bookmark(12345, "Test Article Title", "https://example.com/article")];
    let articles = parse_instapaper_response(bookmarks);
    assert_eq!(articles[0].item_id, "12345");
    assert_eq!(articles[0].title, "Test Article Title");
    assert_eq!(articles[0].uri, "https://example.com/article");
}

#[test]
fn test_parse_instapaper_response_empty_title() {
    let bookmarks = vec![bookmark(12345, "", "https://example.com/article")];
    let articles = parse_instapaper_response(bookmarks);
    assert_eq!(articles[0].title, "https://example.com/article");
}

#[test]
fn newest_bookmarks_first_and_ties_kept() {
    let bookmarks = vec![
        bookmark(3, "c", "u3"),
        bookmark(10, "a", "u10"),
        bookmark(3, "d", "u3b"),
        bookmark(-4, "e", "u-4"),
        bookmark(7, "b", "u7"),
    ];
    let articles = parse_instapaper_response(bookmarks);
    let ids: Vec<&str> = articles.iter().map(|a| a.item_id.as_str()).collect();
    assert_eq!(ids, vec!["10", "7", "3", "3", "-4"]);
    assert_eq!(articles[2].title, "c");
    assert_eq!(articles[3].title, "d");
    assert!(parse_instapaper_response(vec![]).is_empty());
}

#[test]
fn decimal_text() {
    assert_eq!(signed_decimal_text(0), "0");
    assert_eq!(signed_decimal_text(-120), "-120");
    assert_eq!(signed_decimal_text(i64::MIN), "-9223372036854775808");
    assert_eq!(signed_decimal_text(i64::MAX), "9223372036854775807");
}

#[test]
fn selecting_an_article() {
    let a = Article::new("t".to_string(), "https://x".to_string(), "42".to_string());
    match a.update(ArticleInput::ArticleSelected) {
        ArticleOutput::ArticleSelected(uri, id) => {
            assert_eq!(uri, "https://x");
            assert_eq!(id, "42");
        }
    }
}

#[test]
fn submit_with_empty_url() {
    let mut d = AddBookmarkDialog::new(mock_tokens());
    assert!(matches!(d.update(AddBookmarkInput::Submit), AddBookmarkAction::Nothing));
    assert_eq!(d.error_message.as_deref(), Some("Please enter a URL"));
    assert!(!d.is_loading);
}

#[test]
fn submit_without_web_scheme() {
    let mut d = AddBookmarkDialog::new(mock_tokens());
    d.update(AddBookmarkInput::SetUrl("example.com/article".to_string()));
    d.update(AddBookmarkInput::Submit);
    assert_eq!(d.error_message.as_deref(), Some("URL must start with http:// or https://"));
    d.update(AddBookmarkInput::SetUrl("ftp://example.com/file".to_string()));
    assert!(d.error_message.is_none());
    d.update(AddBookmarkInput::Submit);
    assert_eq!(d.error_message.as_deref(), Some("URL must start with http:// or https://"));
}

#[test]
fn submit_web_address_starts_request() {
    for url in ["http://example.com/article", "https://example.com/article"] {
        let mut d = AddBookmarkDialog::new(mock_tokens());
        d.update(AddBookmarkInput::SetUrl(url.to_string()));
        match d.update(AddBookmarkInput::Submit) {
            AddBookmarkAction::StartAdd(u) => assert_eq!(u, url),
            _ => panic!("expected the request to start"),
        }
        assert!(d.is_loading);
        assert!(d.error_message.is_none());
    }
}

#[test]
fn add_bookmark_results_and_cancel() {
    let mut d = AddBookmarkDialog::new(mock_tokens());
    d.update(AddBookmarkInput::SetUrl("https://example.com".to_string()));
    d.update(AddBookmarkInput::Submit);
    match d.update_cmd(AddBookmarkCommandOutput::AddSuccess) {
        AddBookmarkAction::Close(AddBookmarkOutput::BookmarkAdded(u)) => assert_eq!(u, "https://example.com"),
        _ => panic!("expected the dialog to close"),
    }
    assert!(!d.is_loading);
    assert!(matches!(
        d.update_cmd(AddBookmarkCommandOutput::AddFailed("nope".to_string())),
        AddBookmarkAction::Nothing
    ));
    assert_eq!(d.error_message.as_deref(), Some("nope"));
    assert!(matches!(
        d.update(AddBookmarkInput::Cancel),
        AddBookmarkAction::Close(AddBookmarkOutput::Cancelled)
    ));
}

#[test]
fn failure_messages() {
    assert_eq!(
        add_failure_message(&InstapaperError::InvalidCredentials),
        "Invalid credentials. Please log in again"
    );
    assert_eq!(add_failure_message(&InstapaperError::RateLimited), "Rate limited. Please try again later");
    assert_eq!(
        add_failure_message(&InstapaperError::ParseError("bad".to_string())),
        "Failed to add bookmark: ParseError(bad)"
    );
    assert_eq!(login_failure_message(&InstapaperError::InvalidCredentials), "Invalid username or password");
    assert_eq!(login_failure_message(&InstapaperError::RateLimited), "Rate limited. Please try again later.");
    assert_eq!(
        login_failure_message(&InstapaperError::ServiceUnavailable),
        "Instapaper is currently unavailable"
    );
    assert_eq!(
        login_failure_message(&InstapaperError::Network("reset".to_string())),
        "Login failed: Network(reset)"
    );
}

#[test]
fn login_flow() {
    let mut d = LoginDialog::new();
    d.update(LoginInput::SetUsername("testuser".to_string()));
    d.update(LoginInput::Submit);
    assert_eq!(d.error_message.as_deref(), Some("Please enter both username and password"));
    d.update(LoginInput::SetPassword("testpass".to_string()));
    assert!(d.error_message.is_none());
    match d.update(LoginInput::Submit) {
        LoginAction::StartLogin(u, p) => {
            assert_eq!(u, "testuser");
            assert_eq!(p, "testpass");
        }
        _ => panic!("expected the login to start"),
    }
    assert!(d.is_loading);
    let done = login_succeeded(mock_tokens(), None, "testuser".to_string());
    match d.update_cmd(done) {
        LoginAction::Close(LoginOutput::LoggedIn(t, name)) => {
            assert_eq!(t.oauth_token, "test_token");
            assert_eq!(name, "testuser");
        }
        _ => panic!("expected the dialog to close"),
    }
    assert!(!d.is_loading);
    d.update_cmd(LoginCommandOutput::LoginFailed("Invalid username or password".to_string()));
    assert_eq!(d.error_message.as_deref(), Some("Invalid username or password"));
    assert!(matches!(d.update(LoginInput::Cancel), LoginAction::Close(LoginOutput::Cancelled)));
}

#[test]
fn confirmed_name_wins() {
    match login_succeeded(mock_tokens(), Some("Confirmed".to_string()), "typed".to_string()) {
        LoginCommandOutput::LoginSuccess(_, name) => assert_eq!(name, "Confirmed"),
        _ => panic!("expected success"),
    }
}

#[test]
fn token_answers() {
    let ok = parse_token_response("oauth_token=token123&oauth_token_secret=secret456").unwrap();
    assert_eq!(ok.oauth_token, "token123");
    assert_eq!(ok.oauth_token_secret, "secret456");
    let last = parse_token_response("oauth_token_secret=s=1&x&oauth_token=a&oauth_token=b").unwrap();
    assert_eq!(last.oauth_token, "b");
    assert_eq!(last.oauth_token_secret, "s=1");
    match parse_token_response("invalid_response") {
        Err(InstapaperError::ParseError(m)) => assert_eq!(m, "Failed to parse OAuth tokens"),
        _ => panic!("expected a parse error"),
    }
    assert!(parse_token_response("").is_err());
    assert!(parse_token_response("oauth_token=&oauth_token_secret=s").is_err());
}

#[test]
fn api_errors_and_statuses() {
    let limited = ErrorResponse { error_code: 1040, message: "Rate limit exceeded".to_string() };
    assert!(matches!(api_error(&limited), InstapaperError::RateLimited));
    let other = ErrorResponse { error_code: 1241, message: "Invalid URL".to_string() };
    match api_error(&other) {
        InstapaperError::ParseError(m) => assert_eq!(m, "API error 1241: Invalid URL"),
        _ => panic!("expected a parse error"),
    }
    assert!(matches!(status_error(401, false), Some(InstapaperError::InvalidCredentials)));
    assert!(matches!(status_error(503, true), Some(InstapaperError::ServiceUnavailable)));
    assert!(status_error(503, false).is_none());
    assert!(status_error(200, true).is_none());
}

#[test]
fn login_body_is_encoded() {
    assert_eq!(
        xauth_body("a b@c", "p&w=1"),
        "x_auth_username=a%20b%40c&x_auth_password=p%26w%3D1&x_auth_mode=client_auth"
    );
}

#[test]
fn pocket_requests() {
    assert_eq!(
        encode_pocket_uri("ab c"),
        "https://getpocket.com/auth/authorize?request_token=ab+c&redirect_uri=pocket%3A%2F%2Fkekw"
    );
    let init = PocketInitiateOauthRequest::new("key".to_string());
    assert_eq!(init.redirect_uri, "pocket://kekw");
    let code = PocketCodeResponse { code: "c0de".to_string() };
    let trade = PocketAccessTokenRequest::new("key".to_string(), &code);
    assert_eq!(trade.code, "c0de");
    let page = PocketEntriesRequest::page("key".to_string(), "tok".to_string(), 60);
    assert_eq!(page.offset, "60");
    assert_eq!(page.count, "30");
    assert_eq!(page.state, "unread");
    let archive = PocketArchiveEntryRequest::archive("key".to_string(), "tok".to_string(), "9".to_string());
    assert_eq!(archive.actions.len(), 1);
    assert_eq!(archive.actions[0].action, "archive");
    assert_eq!(archive.actions[0].item_id, "9");
}

fn user(name: &str) -> InstapaperResponse {
    InstapaperResponse::User(InstapaperUser { user_id: 12345, username: name.to_string() })
}

#[test]
fn answer_items() {
    let items = vec![InstapaperResponse::Meta, user("testuser"), InstapaperResponse::Unknown];
    assert_eq!(verified_user(items).unwrap().username, "testuser");
    let limited = vec![
        InstapaperResponse::Error(ErrorResponse { error_code: 1040, message: "Rate limit exceeded".to_string() }),
        user("late"),
    ];
    assert!(matches!(verified_user(limited), Err(InstapaperError::RateLimited)));
    match verified_user(vec![InstapaperResponse::Meta]) {
        Err(InstapaperError::ParseError(m)) => assert_eq!(m, "No user in response"),
        _ => panic!("expected a parse error"),
    }
    let list = vec![
        InstapaperResponse::Meta,
        InstapaperResponse::Bookmark(bookmark(1, "Test Article", "https://example.com")),
        user("x"),
        InstapaperResponse::Bookmark(bookmark(2, "Second", "https://example.com/2")),
    ];
    let bookmarks = bookmarks_of(list);
    assert_eq!(bookmarks.len(), 2);
    assert_eq!(bookmarks[0].title, "Test Article");
    assert_eq!(bookmarks[1].bookmark_id, 2);
    let added = vec![user("x"), InstapaperResponse::Bookmark(bookmark(999, "New Article", "https://example.com/new"))];
    assert_eq!(added_bookmark(added).unwrap().bookmark_id, 999);
    match added_bookmark(vec![]) {
        Err(InstapaperError::ParseError(m)) => assert_eq!(m, "No bookmark in response"),
        _ => panic!("expected a parse error"),
    }
    assert_eq!(add_bookmark_body("https://example.com/new"), "url=https%3A%2F%2Fexample.com%2Fnew");
}

#[test]
fn request_texts_from_encoded_parts() {
    assert_eq!(
        xauth_form_from("u%20x", "p"),
        "x_auth_username=u%20x&x_auth_password=p&x_auth_mode=client_auth"
    );
    assert_eq!(
        authorize_uri_from("request_token", "c", "redirect_uri", "b%3A"),
        "https://getpocket.com/auth/authorize?request_token=c&redirect_uri=b%3A"
    );
}
