//! The reading session behind the main window: who is logged in, the reading
//! list, and the article open. Each input or finished task gives the next
//! state and the work for the window to do; the window does that work and
//! hands back what came of it.
use vstd::prelude::*;
use crate::article::Article;
use crate::instapaper::TokenPair;
use crate::numeral::{parse_i64, parsed_i64};

verus! {

/// The session's state.
#[derive(Debug)]
pub struct Session {
    /// Whether the reading list is being fetched.
    pub loading: bool,
    pub tokens: Option<TokenPair>,
    pub username: String,
    pub articles: Vec<Article>,
    pub article_html: Option<String>,
    pub article_title: Option<String>,
    pub article_uri: Option<String>,
    pub article_item_id: Option<String>,
}

/// What the reader asks for.
#[derive(Debug)]
pub enum SessionInput {
    /// An entry was chosen: its title, address and identifier.
    ArticleSelected(String, String, String),
    /// The login dialog logged in: the tokens and the name to show.
    LoginCompleted(TokenPair, String),
    Logout,
    RefreshArticles,
    ArchiveArticle,
    CopyArticleUrl,
    OpenArticle,
}

/// What a task of the session came back with.
#[derive(Debug)]
pub enum SessionEvent {
    /// The fresh reading list; empty where fetching it failed.
    RefreshedArticles(Vec<Article>),
    /// The readable content of the open article.
    ScrapedArticle(String),
    /// The entry with this identifier was archived.
    ArticleArchived(String),
}

/// Work for the window.
#[derive(Debug)]
pub enum SessionAction {
    /// Show this title above the article.
    ShowTitle(String),
    /// Fetch the readable content of the article at this address.
    FetchArticle(String),
    /// Show this content.
    ShowContent(String),
    /// Keep the session's tokens for the next run.
    SaveTokens,
    /// Forget the kept tokens.
    ClearTokens,
    /// Fetch the reading list with the session's tokens.
    FetchBookmarks,
    /// Archive the bookmark with this id; report back with this identifier.
    Archive(i64, String),
    /// Put this text on the clipboard and say so.
    CopyToClipboard(String),
    /// Open this address in the browser.
    OpenUrl(String),
}

/// The bookmark id that an entry identifier stands for: the number it writes,
/// or 0 where it writes none that fits.
pub open spec fn bookmark_id_of(item_id: Seq<char>) -> i64 {
    match parsed_i64(item_id) {
        Some(v) => v,
        None => 0,
    }
}

impl Session {
    /// A session with nobody logged in and nothing open.
    pub fn new(tokens: Option<TokenPair>) -> (r: Session)
        ensures
            !r.loading,
            r.tokens == tokens,
            r.username@.len() == 0,
            r.articles@.len() == 0,
            r.article_html is None,
            r.article_title is None,
            r.article_uri is None,
            r.article_item_id is None,
    {
        Session {
            loading: false,
            tokens,
            username: String::new(),
            articles: Vec::new(),
            article_html: None,
            article_title: None,
            article_uri: None,
            article_item_id: None,
        }
    }

    /// Starts fetching the reading list where somebody is logged in.
    fn refresh(&mut self) -> (r: Vec<SessionAction>)
        ensures
            final(self).tokens == old(self).tokens,
            final(self).username == old(self).username,
            final(self).articles == old(self).articles,
            final(self).article_html == old(self).article_html,
            final(self).article_title == old(self).article_title,
            final(self).article_uri == old(self).article_uri,
            final(self).article_item_id == old(self).article_item_id,
            old(self).tokens is Some ==> final(self).loading && r@ == seq![SessionAction::FetchBookmarks],
            old(self).tokens is None ==> final(self).loading == old(self).loading && r@.len() == 0,
    {
        let mut actions: Vec<SessionAction> = Vec::new();
        if self.tokens.is_some() {
            self.loading = true;
            actions.push(SessionAction::FetchBookmarks);
        }
        actions
    }

    /// Takes one request of the reader.
    pub fn update(&mut self, message: SessionInput) -> (r: Vec<SessionAction>)
        ensures
            match message {
                SessionInput::ArticleSelected(title, uri, item_id) => {
                    &&& final(self).article_title == Some(title)
                    &&& final(self).article_uri == Some(uri)
                    &&& final(self).article_item_id == Some(item_id)
                    &&& final(self).tokens == old(self).tokens
                    &&& final(self).articles == old(self).articles
                    &&& final(self).loading == old(self).loading
                    &&& r@ == seq![SessionAction::ShowTitle(title), SessionAction::FetchArticle(uri)]
                },
                SessionInput::LoginCompleted(tokens, username) => {
                    &&& final(self).tokens == Some(tokens)
                    &&& final(self).username == username
                    &&& final(self).articles == old(self).articles
                    &&& final(self).loading
                    &&& r@ == seq![SessionAction::SaveTokens, SessionAction::FetchBookmarks]
                },
                SessionInput::Logout => {
                    &&& final(self).tokens is None
                    &&& final(self).username@.len() == 0
                    &&& final(self).articles@.len() == 0
                    &&& final(self).article_html is None
                    &&& final(self).article_uri is None
                    &&& final(self).article_item_id is None
                    &&& final(self).article_title == old(self).article_title
                    &&& final(self).loading == old(self).loading
                    &&& r@ == seq![SessionAction::ClearTokens]
                },
                SessionInput::RefreshArticles => {
                    &&& final(self).tokens == old(self).tokens
                    &&& final(self).articles == old(self).articles
                    &&& old(self).tokens is Some ==> final(self).loading && r@ == seq![
                        SessionAction::FetchBookmarks,
                    ]
                    &&& old(self).tokens is None ==> *final(self) == *old(self) && r@.len() == 0
                },
                SessionInput::ArchiveArticle => {
                    &&& *final(self) == *old(self)
                    &&& match (old(self).tokens, old(self).article_item_id) {
                        (Some(_), Some(id)) => r@ == seq![
                            SessionAction::Archive(bookmark_id_of(id@), id),
                        ],
                        _ => r@.len() == 0,
                    }
                },
                SessionInput::CopyArticleUrl => {
                    &&& *final(self) == *old(self)
                    &&& match old(self).article_uri {
                        Some(u) => r@ == seq![SessionAction::CopyToClipboard(u)],
                        None => r@.len() == 0,
                    }
                },
                SessionInput::OpenArticle => {
                    &&& *final(self) == *old(self)
                    &&& match old(self).article_uri {
                        Some(u) => r@ == seq![SessionAction::OpenUrl(u)],
                        None => r@.len() == 0,
                    }
                },
            },
    {
        match message {
            SessionInput::ArticleSelected(title, uri, item_id) => {
                self.article_title = Some(title.clone());
                self.article_uri = Some(uri.clone());
                self.article_item_id = Some(item_id);
                let mut actions: Vec<SessionAction> = Vec::new();
                actions.push(SessionAction::ShowTitle(title));
                actions.push(SessionAction::FetchArticle(uri));
                actions
            },
            SessionInput::LoginCompleted(tokens, username) => {
                self.tokens = Some(tokens);
                self.username = username;
                let mut actions: Vec<SessionAction> = Vec::new();
                actions.push(SessionAction::SaveTokens);
                let mut more = self.refresh();
                actions.append(&mut more);
                actions
            },
            SessionInput::Logout => {
                self.tokens = None;
                self.username = String::new();
                self.articles = Vec::new();
                self.article_html = None;
                self.article_uri = None;
                self.article_item_id = None;
                let mut actions: Vec<SessionAction> = Vec::new();
                actions.push(SessionAction::ClearTokens);
                actions
            },
            SessionInput::RefreshArticles => self.refresh(),
            SessionInput::ArchiveArticle => {
                let mut actions: Vec<SessionAction> = Vec::new();
                if self.tokens.is_some() {
                    match &self.article_item_id {
                        Some(id) => {
                            let bookmark_id = match parse_i64(id.as_str()) {
                                Some(v) => v,
                                None => 0,
                            };
                            actions.push(SessionAction::Archive(bookmark_id, id.clone()));
                        },
                        None => {},
                    }
                }
                actions
            },
            SessionInput::CopyArticleUrl => {
                let mut actions: Vec<SessionAction> = Vec::new();
                match &self.article_uri {
                    Some(u) => actions.push(SessionAction::CopyToClipboard(u.clone())),
                    None => {},
                }
                actions
            },
            SessionInput::OpenArticle => {
                let mut actions: Vec<SessionAction> = Vec::new();
                match &self.article_uri {
                    Some(u) => actions.push(SessionAction::OpenUrl(u.clone())),
                    None => {},
                }
                actions
            },
        }
    }

    /// Takes what a task came back with.
    pub fn update_cmd(&mut self, message: SessionEvent) -> (r: Vec<SessionAction>)
        ensures
            final(self).tokens == old(self).tokens,
            match message {
                SessionEvent::RefreshedArticles(entries) => {
                    &&& !final(self).loading
                    &&& final(self).articles == entries
                    &&& final(self).article_uri == old(self).article_uri
                    &&& r@.len() == 0
                },
                SessionEvent::ScrapedArticle(html) => {
                    &&& final(self).article_html == Some(html)
                    &&& final(self).articles == old(self).articles
                    &&& final(self).loading == old(self).loading
                    &&& r@ == seq![SessionAction::ShowContent(html)]
                },
                SessionEvent::ArticleArchived(_) => {
                    &&& final(self).article_html is None
                    &&& final(self).article_title is None
                    &&& final(self).article_uri is None
                    &&& final(self).article_item_id is None
                    &&& final(self).articles == old(self).articles
                    &&& old(self).tokens is Some ==> final(self).loading && r@ == seq![
                        SessionAction::FetchBookmarks,
                    ]
                    &&& old(self).tokens is None ==> final(self).loading == old(self).loading
                        && r@.len() == 0
                },
            },
    {
        match message {
            SessionEvent::RefreshedArticles(entries) => {
                self.loading = false;
                self.articles = entries;
                Vec::new()
            },
            SessionEvent::ScrapedArticle(html) => {
                self.article_html = Some(html.clone());
                let mut actions: Vec<SessionAction> = Vec::new();
                actions.push(SessionAction::ShowContent(html));
                actions
            },
            SessionEvent::ArticleArchived(_) => {
                self.article_html = None;
                self.article_title = None;
                self.article_uri = None;
                self.article_item_id = None;
                self.refresh()
            },
        }
    }
}

} // verus!
