//! The dialog that saves a new bookmark: its state and its decisions. Showing
//! it and sending the request are left to its owner.
use vstd::prelude::*;
use crate::instapaper::{error_description, InstapaperError, TokenPair};
use crate::text::{has_prefix, starts_with};

verus! {

/// The dialog's state.
#[derive(Debug)]
pub struct AddBookmarkDialog {
    /// The address typed so far.
    pub url: String,
    /// The problem shown under the address, if any.
    pub error_message: Option<String>,
    /// Whether a request is under way.
    pub is_loading: bool,
    /// The credentials the request is signed with.
    pub tokens: TokenPair,
}

/// What the dialog is told by its widgets.
#[derive(Debug)]
pub enum AddBookmarkInput {
    SetUrl(String),
    Submit,
    Cancel,
}

/// What the dialog tells its owner.
#[derive(Debug)]
pub enum AddBookmarkOutput {
    /// This address was saved.
    BookmarkAdded(String),
    Cancelled,
}

/// How the request to save the bookmark ended.
#[derive(Debug)]
pub enum AddBookmarkCommandOutput {
    AddSuccess,
    /// The request failed; the message to show.
    AddFailed(String),
}

/// What the owner of the dialog does next.
#[derive(Debug)]
pub enum AddBookmarkAction {
    Nothing,
    /// Ask the service to save this address, signed with the dialog's tokens.
    StartAdd(String),
    /// Close the dialog and pass this on.
    Close(AddBookmarkOutput),
}

/// Whether an address is one the dialog accepts: it starts with `http://` or
/// `https://`.
pub open spec fn is_web_address(u: Seq<char>) -> bool {
    starts_with(u, "http://"@) || starts_with(u, "https://"@)
}

/// The message for an empty address.
pub open spec fn empty_url_message() -> Seq<char> {
    "Please enter a URL"@
}

/// The message for an address that is not a web address.
pub open spec fn bad_scheme_message() -> Seq<char> {
    "URL must start with http:// or https://"@
}

/// The message shown when saving failed with `e`.
pub open spec fn add_failure_text(e: InstapaperError) -> Seq<char> {
    match e {
        InstapaperError::InvalidCredentials => "Invalid credentials. Please log in again"@,
        InstapaperError::RateLimited => "Rate limited. Please try again later"@,
        _ => "Failed to add bookmark: "@ + error_description(e),
    }
}

/// The message shown when saving failed with `e`.
pub fn add_failure_message(e: &InstapaperError) -> (r: String)
    ensures
        r@ == add_failure_text(*e),
{
    match e {
        InstapaperError::InvalidCredentials => String::from_str(
            "Invalid credentials. Please log in again",
        ),
        InstapaperError::RateLimited => String::from_str("Rate limited. Please try again later"),
        _ => {
            let mut s = String::from_str("Failed to add bookmark: ");
            let d = e.describe();
            s.append(d.as_str());
            s
        },
    }
}

impl AddBookmarkDialog {
    /// A fresh dialog: no address, no message, nothing under way.
    pub fn new(tokens: TokenPair) -> (r: AddBookmarkDialog)
        ensures
            r.url@.len() == 0,
            r.error_message is None,
            !r.is_loading,
            r.tokens == tokens,
    {
        AddBookmarkDialog { url: String::new(), error_message: None, is_loading: false, tokens }
    }

    /// Takes one input. A new address clears the message. Submitting an empty
    /// address or one that is not a web address sets the message for it;
    /// submitting a web address starts the request. Cancelling closes.
    pub fn update(&mut self, message: AddBookmarkInput) -> (r: AddBookmarkAction)
        ensures
            final(self).tokens == old(self).tokens,
            match message {
                AddBookmarkInput::SetUrl(u) => {
                    &&& final(self).url == u
                    &&& final(self).error_message is None
                    &&& final(self).is_loading == old(self).is_loading
                    &&& r is Nothing
                },
                AddBookmarkInput::Submit => {
                    &&& final(self).url == old(self).url
                    &&& if old(self).url@.len() == 0 {
                        &&& final(self).error_message matches Some(m) && m@ == empty_url_message()
                        &&& final(self).is_loading == old(self).is_loading
                        &&& r is Nothing
                    } else if !is_web_address(old(self).url@) {
                        &&& final(self).error_message matches Some(m) && m@ == bad_scheme_message()
                        &&& final(self).is_loading == old(self).is_loading
                        &&& r is Nothing
                    } else {
                        &&& final(self).error_message is None
                        &&& final(self).is_loading
                        &&& r matches AddBookmarkAction::StartAdd(u) && u@ == old(self).url@
                    }
                },
                AddBookmarkInput::Cancel => {
                    &&& final(self).url == old(self).url
                    &&& final(self).error_message == old(self).error_message
                    &&& final(self).is_loading == old(self).is_loading
                    &&& r matches AddBookmarkAction::Close(AddBookmarkOutput::Cancelled)
                },
            },
    {
        match message {
            AddBookmarkInput::SetUrl(u) => {
                self.url = u;
                self.error_message = None;
                AddBookmarkAction::Nothing
            },
            AddBookmarkInput::Submit => {
                if self.url.as_str().is_empty() {
                    self.error_message = Some(String::from_str("Please enter a URL"));
                    return AddBookmarkAction::Nothing;
                }
                if !has_prefix(self.url.as_str(), "http://") && !has_prefix(
                    self.url.as_str(),
                    "https://",
                ) {
                    self.error_message = Some(
                        String::from_str("URL must start with http:// or https://"),
                    );
                    return AddBookmarkAction::Nothing;
                }
                self.is_loading = true;
                self.error_message = None;
                AddBookmarkAction::StartAdd(self.url.clone())
            },
            AddBookmarkInput::Cancel => AddBookmarkAction::Close(AddBookmarkOutput::Cancelled),
        }
    }

    /// Takes the end of the request: on success the dialog closes with the
    /// saved address, on failure it shows the message.
    pub fn update_cmd(&mut self, message: AddBookmarkCommandOutput) -> (r: AddBookmarkAction)
        ensures
            final(self).tokens == old(self).tokens,
            final(self).url == old(self).url,
            !final(self).is_loading,
            match message {
                AddBookmarkCommandOutput::AddSuccess => {
                    &&& final(self).error_message == old(self).error_message
                    &&& r matches AddBookmarkAction::Close(AddBookmarkOutput::BookmarkAdded(u))
                        && u@ == old(self).url@
                },
                AddBookmarkCommandOutput::AddFailed(e) => {
                    &&& final(self).error_message == Some(e)
                    &&& r is Nothing
                },
            },
    {
        match message {
            AddBookmarkCommandOutput::AddSuccess => {
                self.is_loading = false;
                AddBookmarkAction::Close(AddBookmarkOutput::BookmarkAdded(self.url.clone()))
            },
            AddBookmarkCommandOutput::AddFailed(e) => {
                self.is_loading = false;
                self.error_message = Some(e);
                AddBookmarkAction::Nothing
            },
        }
    }
}

} // verus!
