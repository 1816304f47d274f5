//! The dialog that logs a reader in: its state and its decisions. Showing it
//! and talking to the service are left to its owner.
use vstd::prelude::*;
use crate::instapaper::{error_description, InstapaperError, TokenPair};

verus! {

/// The dialog's state.
#[derive(Debug)]
pub struct LoginDialog {
    pub username: String,
    pub password: String,
    /// The problem shown under the fields, if any.
    pub error_message: Option<String>,
    /// Whether a login is under way.
    pub is_loading: bool,
}

/// What the dialog is told by its widgets.
#[derive(Debug)]
pub enum LoginInput {
    SetUsername(String),
    SetPassword(String),
    Submit,
    Cancel,
}

/// What the dialog tells its owner.
#[derive(Debug)]
pub enum LoginOutput {
    /// Logged in: the credentials and the name to show.
    LoggedIn(TokenPair, String),
    Cancelled,
}

/// How the login ended.
#[derive(Debug)]
pub enum LoginCommandOutput {
    LoginSuccess(TokenPair, String),
    /// The login failed; the message to show.
    LoginFailed(String),
}

/// What the owner of the dialog does next.
#[derive(Debug)]
pub enum LoginAction {
    Nothing,
    /// Log in with this user name and password.
    StartLogin(String, String),
    /// Close the dialog and pass this on.
    Close(LoginOutput),
}

/// The message for a missing user name or password.
pub open spec fn missing_fields_message() -> Seq<char> {
    "Please enter both username and password"@
}

/// The message shown when logging in failed with `e`.
pub open spec fn login_failure_text(e: InstapaperError) -> Seq<char> {
    match e {
        InstapaperError::InvalidCredentials => "Invalid username or password"@,
        InstapaperError::RateLimited => "Rate limited. Please try again later."@,
        InstapaperError::ServiceUnavailable => "Instapaper is currently unavailable"@,
        _ => "Login failed: "@ + error_description(e),
    }
}

/// The message shown when logging in failed with `e`.
pub fn login_failure_message(e: &InstapaperError) -> (r: String)
    ensures
        r@ == login_failure_text(*e),
{
    match e {
        InstapaperError::InvalidCredentials => String::from_str("Invalid username or password"),
        InstapaperError::RateLimited => String::from_str("Rate limited. Please try again later."),
        InstapaperError::ServiceUnavailable => String::from_str(
            "Instapaper is currently unavailable",
        ),
        _ => {
            let mut s = String::from_str("Login failed: ");
            let d = e.describe();
            s.append(d.as_str());
            s
        },
    }
}

/// The end of a login whose credentials were granted: the name to show is the
/// one the service confirmed, else the one that was typed.
pub fn login_succeeded(tokens: TokenPair, confirmed: Option<String>, typed: String) -> (r:
    LoginCommandOutput)
    ensures
        r matches LoginCommandOutput::LoginSuccess(t, name) && t == tokens && name == (
        match confirmed {
            Some(c) => c,
            None => typed,
        }),
{
    let name = match confirmed {
        Some(c) => c,
        None => typed,
    };
    LoginCommandOutput::LoginSuccess(tokens, name)
}

impl LoginDialog {
    /// A fresh dialog: empty fields, no message, nothing under way.
    pub fn new() -> (r: LoginDialog)
        ensures
            r.username@.len() == 0,
            r.password@.len() == 0,
            r.error_message is None,
            !r.is_loading,
    {
        LoginDialog {
            username: String::new(),
            password: String::new(),
            error_message: None,
            is_loading: false,
        }
    }

    /// Takes one input. Editing a field clears the message. Submitting with a
    /// field empty sets the message; else the login starts. Cancelling closes.
    pub fn update(&mut self, message: LoginInput) -> (r: LoginAction)
        ensures
            match message {
                LoginInput::SetUsername(u) => {
                    &&& final(self).username == u
                    &&& final(self).password == old(self).password
                    &&& final(self).error_message is None
                    &&& final(self).is_loading == old(self).is_loading
                    &&& r is Nothing
                },
                LoginInput::SetPassword(p) => {
                    &&& final(self).username == old(self).username
                    &&& final(self).password == p
                    &&& final(self).error_message is None
                    &&& final(self).is_loading == old(self).is_loading
                    &&& r is Nothing
                },
                LoginInput::Submit => {
                    &&& final(self).username == old(self).username
                    &&& final(self).password == old(self).password
                    &&& if old(self).username@.len() == 0 || old(self).password@.len() == 0 {
                        &&& final(self).error_message matches Some(m) && m@
                            == missing_fields_message()
                        &&& final(self).is_loading == old(self).is_loading
                        &&& r is Nothing
                    } else {
                        &&& final(self).error_message is None
                        &&& final(self).is_loading
                        &&& r matches LoginAction::StartLogin(u, p) && u@ == old(self).username@
                            && p@ == old(self).password@
                    }
                },
                LoginInput::Cancel => {
                    &&& *final(self) == *old(self)
                    &&& r matches LoginAction::Close(LoginOutput::Cancelled)
                },
            },
    {
        match message {
            LoginInput::SetUsername(u) => {
                self.username = u;
                self.error_message = None;
                LoginAction::Nothing
            },
            LoginInput::SetPassword(p) => {
                self.password = p;
                self.error_message = None;
                LoginAction::Nothing
            },
            LoginInput::Submit => {
                if self.username.as_str().is_empty() || self.password.as_str().is_empty() {
                    self.error_message = Some(
                        String::from_str("Please enter both username and password"),
                    );
                    return LoginAction::Nothing;
                }
                self.is_loading = true;
                self.error_message = None;
                LoginAction::StartLogin(self.username.clone(), self.password.clone())
            },
            LoginInput::Cancel => LoginAction::Close(LoginOutput::Cancelled),
        }
    }

    /// Takes the end of the login: on success the dialog closes and passes the
    /// credentials on, on failure it shows the message.
    pub fn update_cmd(&mut self, message: LoginCommandOutput) -> (r: LoginAction)
        ensures
            final(self).username == old(self).username,
            final(self).password == old(self).password,
            !final(self).is_loading,
            match message {
                LoginCommandOutput::LoginSuccess(t, name) => {
                    &&& final(self).error_message == old(self).error_message
                    &&& r == LoginAction::Close(LoginOutput::LoggedIn(t, name))
                },
                LoginCommandOutput::LoginFailed(e) => {
                    &&& final(self).error_message == Some(e)
                    &&& r is Nothing
                },
            },
    {
        match message {
            LoginCommandOutput::LoginSuccess(t, name) => {
                self.is_loading = false;
                LoginAction::Close(LoginOutput::LoggedIn(t, name))
            },
            LoginCommandOutput::LoginFailed(e) => {
                self.is_loading = false;
                self.error_message = Some(e);
                LoginAction::Nothing
            },
        }
    }
}

} // verus!
