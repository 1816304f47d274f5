use cauldron::article::Article;
use cauldron::instapaper::TokenPair;
use cauldron::numeral::parse_i64;
use cauldron::session::{Session, SessionAction, SessionEvent, SessionInput};

fn tokens() -> TokenPair {
    TokenPair { oauth_token: "t".to_string(), oauth_token_secret: "s".to_string() }
}

fn names(actions: &[SessionAction]) -> Vec<String> {
    actions
        .iter()
        .map(|a| match a {
            SessionAction::ShowTitle(t) => format!("ShowTitle({})", t),
            SessionAction::FetchArticle(u) => format!("FetchArticle({})", u),
            SessionAction::ShowContent(h) => format!("ShowContent({})", h),
            SessionAction::SaveTokens => "SaveTokens".to_string(),
            SessionAction::ClearTokens => "ClearTokens".to_string(),
            SessionAction::FetchBookmarks => "FetchBookmarks".to_string(),
            SessionAction::Archive(id, item) => format!("Archive({},{})", id, item),
            SessionAction::CopyToClipboard(u) => format!("CopyToClipboard({})", u),
            SessionAction::OpenUrl(u) => format!("OpenUrl({})", u),
        })
        .collect()
}

#[test]
fn parses_decimal_ids() {
    assert_eq!(parse_i64("12345"), Some(12345));
    assert_eq!(parse_i64("-7"), Some(-7));
    assert_eq!(parse_i64("+7"), Some(7));
    assert_eq!(parse_i64("9223372036854775807"), Some(i64::MAX));
    assert_eq!(parse_i64("-9223372036854775808"), Some(i64::MIN));
    assert_eq!(parse_i64("9223372036854775808"), None);
    assert_eq!(parse_i64(""), None);
    assert_eq!(parse_i64("-"), None);
    assert_eq!(parse_i64("12a"), None);
    assert_eq!(parse_i64("abc"), None);
}

#[test]
fn logged_out_session_does_not_fetch() {
    let mut s = Session::new(None);
    assert!(s.update(SessionInput::RefreshArticles).is_empty());
    assert!(!s.loading);
    assert!(s.update(SessionInput::ArchiveArticle).is_empty());
    assert!(s.update(SessionInput::OpenArticle).is_empty());
}

#[test]
fn login_then_refresh() {
    let mut s = Session::new(None);
    let a = s.update(SessionInput::LoginCompleted(tokens(), "reader".to_string()));
    assert_eq!(names(&a), vec!["SaveTokens", "FetchBookmarks"]);
    assert!(s.loading);
    assert_eq!(s.username, "reader");
    let entries = vec![Article::new("T".to_string(), "https://x".to_string(), "5".to_string())];
    assert!(s.update_cmd(SessionEvent::RefreshedArticles(entries)).is_empty());
    assert!(!s.loading);
    assert_eq!(s.articles.len(), 1);
}

#[test]
fn open_copy_archive_and_logout() {
    let mut s = Session::new(Some(tokens()));
    let a = s.update(SessionInput::ArticleSelected("Title".to_string(), "https://x".to_string(), "42".to_string()));
    assert_eq!(names(&a), vec!["ShowTitle(Title)", "FetchArticle(https://x)"]);
    let a = s.update_cmd(SessionEvent::ScrapedArticle("<p>x</p>".to_string()));
    assert_eq!(names(&a), vec!["ShowContent(<p>x</p>)"]);
    assert_eq!(s.article_html.as_deref(), Some("<p>x</p>"));
    assert_eq!(names(&s.update(SessionInput::CopyArticleUrl)), vec!["CopyToClipboard(https://x)"]);
    assert_eq!(names(&s.update(SessionInput::OpenArticle)), vec!["OpenUrl(https://x)"]);
    assert_eq!(names(&s.update(SessionInput::ArchiveArticle)), vec!["Archive(42,42)"]);
    let a = s.update_cmd(SessionEvent::ArticleArchived("42".to_string()));
    assert_eq!(names(&a), vec!["FetchBookmarks"]);
    assert!(s.article_uri.is_none() && s.article_title.is_none() && s.article_html.is_none());
    s.update(SessionInput::ArticleSelected("T".to_string(), "u".to_string(), "not-a-number".to_string()));
    assert_eq!(names(&s.update(SessionInput::ArchiveArticle)), vec!["Archive(0,not-a-number)"]);
    assert_eq!(names(&s.update(SessionInput::Logout)), vec!["ClearTokens"]);
    assert!(s.tokens.is_none());
    assert!(s.articles.is_empty());
    assert_eq!(s.article_title.as_deref(), Some("T"));
}
