//! The reading-list service's credentials and errors, and what they read as.
use vstd::prelude::*;
use crate::numeral::{signed_decimal, signed_decimal_text};
use crate::text::same_text;
use crate::article::InstapaperBookmark;

verus! {

/// The token and secret that sign requests for a logged-in reader.
#[derive(Clone, Debug)]
pub struct TokenPair {
    pub oauth_token: String,
    pub oauth_token_secret: String,
}

/// Why a request to the service failed.
#[derive(Debug)]
pub enum InstapaperError {
    /// The request did not reach the service; the transport's description.
    Network(String),
    InvalidCredentials,
    RateLimited,
    ServiceUnavailable,
    /// The answer could not be read; what was wrong with it.
    ParseError(String),
}

/// An error item in one of the service's answers.
#[derive(Debug)]
pub struct ErrorResponse {
    pub error_code: i32,
    pub message: String,
}

/// The service's code for too many requests.
pub const RATE_LIMIT_CODE: i32 = 1040;

/// The text of an unreadable answer that carried an error item.
pub open spec fn api_error_text(e: ErrorResponse) -> Seq<char> {
    "API error "@ + signed_decimal(e.error_code as int) + ": "@ + e.message@
}

/// Whether `r` is the error that the error item `e` stands for.
pub open spec fn is_api_error_of(e: ErrorResponse, r: InstapaperError) -> bool {
    &&& e.error_code == RATE_LIMIT_CODE ==> r is RateLimited
    &&& e.error_code != RATE_LIMIT_CODE ==> (r matches InstapaperError::ParseError(m) && m@
        == api_error_text(e))
}

/// The error that an error item of an answer stands for: too many requests
/// for the rate-limit code, else an unreadable answer naming code and message.
pub fn api_error(e: &ErrorResponse) -> (r: InstapaperError)
    ensures
        is_api_error_of(*e, r),
{
    if e.error_code == RATE_LIMIT_CODE {
        InstapaperError::RateLimited
    } else {
        let mut m = String::from_str("API error ");
        let code = signed_decimal_text(e.error_code as i64);
        m.append(code.as_str());
        m.append(": ");
        m.append(e.message.as_str());
        InstapaperError::ParseError(m)
    }
}

/// A short description of an error: the kind's name, with the detail that
/// it carries in parentheses.
pub open spec fn error_description(e: InstapaperError) -> Seq<char> {
    match e {
        InstapaperError::Network(d) => "Network("@ + d@ + ")"@,
        InstapaperError::InvalidCredentials => "InvalidCredentials"@,
        InstapaperError::RateLimited => "RateLimited"@,
        InstapaperError::ServiceUnavailable => "ServiceUnavailable"@,
        InstapaperError::ParseError(d) => "ParseError("@ + d@ + ")"@,
    }
}

impl InstapaperError {
    pub fn describe(&self) -> (r: String)
        ensures
            r@ == error_description(*self),
    {
        match self {
            InstapaperError::Network(d) => {
                let mut s = String::from_str("Network(");
                s.append(d.as_str());
                s.append(")");
                s
            },
            InstapaperError::InvalidCredentials => String::from_str("InvalidCredentials"),
            InstapaperError::RateLimited => String::from_str("RateLimited"),
            InstapaperError::ServiceUnavailable => String::from_str("ServiceUnavailable"),
            InstapaperError::ParseError(d) => {
                let mut s = String::from_str("ParseError(");
                s.append(d.as_str());
                s.append(")");
                s
            },
        }
    }
}

/// The error that a response status stands for, where it stands for one:
/// 401 for refused credentials and, where `unavailable_checked`, 503 for a
/// service that is down.
pub fn status_error(status: u16, unavailable_checked: bool) -> (r: Option<InstapaperError>)
    ensures
        status == 401 ==> (r matches Some(InstapaperError::InvalidCredentials)),
        status == 503 && unavailable_checked ==> (r matches Some(
            InstapaperError::ServiceUnavailable,
        )),
        status != 401 && !(status == 503 && unavailable_checked) ==> r is None,
{
    if status == 401 {
        Some(InstapaperError::InvalidCredentials)
    } else if status == 503 && unavailable_checked {
        Some(InstapaperError::ServiceUnavailable)
    } else {
        None
    }
}

/// The index of the first `c` in `t`, or the length of `t` where there is none.
pub open spec fn find_char(t: Seq<char>, c: char) -> nat
    decreases t.len(),
{
    if t.len() == 0 {
        0
    } else if t[0] == c {
        0
    } else {
        1 + find_char(t.drop_first(), c)
    }
}

/// Token and secret after reading one `key=value` segment over `acc`: the
/// value replaces the token or the secret where the key names it.
pub open spec fn read_pair(seg: Seq<char>, acc: (Seq<char>, Seq<char>)) -> (Seq<char>, Seq<char>) {
    let i = find_char(seg, '=');
    if i >= seg.len() {
        acc
    } else if seg.take(i as int) == "oauth_token"@ {
        (seg.skip(i as int + 1), acc.1)
    } else if seg.take(i as int) == "oauth_token_secret"@ {
        (acc.0, seg.skip(i as int + 1))
    } else {
        acc
    }
}

/// Token and secret after reading, in order, each `&`-separated segment of `t`.
pub open spec fn read_pairs(t: Seq<char>, acc: (Seq<char>, Seq<char>)) -> (Seq<char>, Seq<char>)
    decreases t.len(),
{
    let i = find_char(t, '&');
    let next = read_pair(t.take(i as int), acc);
    if i >= t.len() {
        next
    } else {
        read_pairs(t.skip(i as int + 1), next)
    }
}

/// The token and secret that a token answer carries.
pub open spec fn tokens_in(t: Seq<char>) -> (Seq<char>, Seq<char>) {
    read_pairs(t, (seq![], seq![]))
}

proof fn lemma_find_char(t: Seq<char>, c: char, m: int)
    requires
        0 <= m <= t.len(),
        forall|k: int| 0 <= k < m ==> t[k] != c,
        m == t.len() || t[m] == c,
    ensures
        find_char(t, c) == m,
    decreases m,
{
    if m > 0 {
        lemma_find_char(t.drop_first(), c, m - 1);
    }
}

/// The first `c` at or after `from` in `s`, or the length of `s`.
fn next_char(s: &str, c: char, from: usize) -> (r: usize)
    requires
        from <= s@.len(),
    ensures
        from <= r <= s@.len(),
        find_char(s@.skip(from as int), c) == r - from,
{
    let n = s.unicode_len();
    let mut j = from;
    while j < n && s.get_char(j) != c
        invariant
            n == s@.len(),
            from <= j <= n,
            forall|k: int| from <= k < j ==> s@[k] != c,
        decreases n - j,
    {
        j = j + 1;
    }
    proof {
        lemma_find_char(s@.skip(from as int), c, j - from);
    }
    j
}

/// Reads the token answer of a login: `&`-separated `key=value` pairs, of which
/// `oauth_token` and `oauth_token_secret` count, the last of each winning. Both
/// must be there and not empty.
pub fn parse_token_response(text: &str) -> (r: Result<TokenPair, InstapaperError>)
    ensures
        match r {
            Ok(p) => p.oauth_token@ == tokens_in(text@).0 && p.oauth_token_secret@ == tokens_in(
                text@,
            ).1 && tokens_in(text@).0.len() > 0 && tokens_in(text@).1.len() > 0,
            Err(e) => (tokens_in(text@).0.len() == 0 || tokens_in(text@).1.len() == 0) && (e matches InstapaperError::ParseError(m) && m@ == "Failed to parse OAuth tokens"@),
        },
{
    let n = text.unicode_len();
    let mut token = String::new();
    let mut secret = String::new();
    let mut pos: usize = 0;
    assert(text@.skip(0) == text@);
    loop
        invariant
            n == text@.len(),
            pos <= n,
            tokens_in(text@) == read_pairs(text@.skip(pos as int), (token@, secret@)),
        ensures
            tokens_in(text@) == (token@, secret@),
        decreases n - pos,
    {
        let ghost rest = text@.skip(pos as int);
        let ghost acc0 = (token@, secret@);
        let j = next_char(text, '&', pos);
        let seg = text.substring_char(pos, j);
        assert(seg@ == rest.take(j - pos));
        let m = seg.unicode_len();
        let e = next_char(seg, '=', 0);
        assert(seg@.skip(0) == seg@);
        if e < m {
            let key = seg.substring_char(0, e);
            assert(key@ == seg@.take(e as int));
            let value = seg.substring_char(e + 1, m);
            assert(value@ == seg@.skip(e + 1));
            if same_text(key, "oauth_token") {
                token = String::from_str(value);
            } else if same_text(key, "oauth_token_secret") {
                secret = String::from_str(value);
            }
        }
        assert((token@, secret@) == read_pair(seg@, acc0));
        if j >= n {
            assert(rest.take(j - pos) == rest);
            break;
        }
        assert(rest.skip(j - pos + 1) == text@.skip(j + 1));
        pos = j + 1;
    }
    if token.as_str().is_empty() || secret.as_str().is_empty() {
        return Err(InstapaperError::ParseError(String::from_str("Failed to parse OAuth tokens")));
    }
    Ok(TokenPair { oauth_token: token, oauth_token_secret: secret })
}

/// What `urlencoding::encode` makes of a text.
pub uninterp spec fn percent_encoded(s: Seq<char>) -> Seq<char>;

/// Relies on urlencoding::encode: every byte of the text but ASCII letters,
/// digits and `-`, `_`, `.`, `~` percent-encoded; the result depends on the
/// text alone.
#[verifier::external_body]
fn percent_encode(s: &str) -> (r: String)
    ensures
        r@ == percent_encoded(s@),
{
    urlencoding::encode(s).into_owned()
}

/// The form body of a login request, from the user name and password as
/// they are written in it.
pub open spec fn xauth_form(user: Seq<char>, password: Seq<char>) -> Seq<char> {
    "x_auth_username="@ + user + "&x_auth_password="@ + password + "&x_auth_mode=client_auth"@
}

/// The form body of a login request, from the user name and password already
/// encoded for it.
pub fn xauth_form_from(encoded_user: &str, encoded_password: &str) -> (r: String)
    ensures
        r@ == xauth_form(encoded_user@, encoded_password@),
{
    let mut body = String::from_str("x_auth_username=");
    body.append(encoded_user);
    body.append("&x_auth_password=");
    body.append(encoded_password);
    body.append("&x_auth_mode=client_auth");
    body
}

/// The form body of a login request by user name and password, each
/// percent-encoded.
pub fn xauth_body(username: &str, password: &str) -> (r: String)
    ensures
        r@ == xauth_form(percent_encoded(username@), percent_encoded(password@)),
{
    let u = percent_encode(username);
    let p = percent_encode(password);
    xauth_form_from(u.as_str(), p.as_str())
}

/// The account an answer describes.
#[derive(Debug)]
pub struct InstapaperUser {
    pub user_id: i64,
    pub username: String,
}

/// One item of an answer of the service.
#[derive(Debug)]
pub enum InstapaperResponse {
    User(InstapaperUser),
    Bookmark(InstapaperBookmark),
    Meta,
    Error(ErrorResponse),
    /// An item of a kind that is not read.
    Unknown,
}

/// The index of the first account or error item of `items`, or their number.
pub open spec fn first_decisive(items: Seq<InstapaperResponse>) -> nat
    decreases items.len(),
{
    if items.len() == 0 {
        0
    } else if items[0] is User || items[0] is Error {
        0
    } else {
        1 + first_decisive(items.drop_first())
    }
}

proof fn lemma_first_decisive(items: Seq<InstapaperResponse>, n: int)
    requires
        0 <= n <= items.len(),
        forall|k: int| 0 <= k < n ==> !(items[k] is User) && !(items[k] is Error),
    ensures
        first_decisive(items) >= n,
        first_decisive(items) <= items.len(),
        first_decisive(items) < items.len() ==> (items[first_decisive(items) as int] is User
            || items[first_decisive(items) as int] is Error),
        n < items.len() && (items[n] is User || items[n] is Error) ==> first_decisive(items) == n,
    decreases items.len(),
{
    if items.len() > 0 && !(items[0] is User) && !(items[0] is Error) {
        lemma_first_decisive(items.drop_first(), if n > 0 { n - 1 } else { 0 });
    }
}

/// The account that an answer to a credentials check names: the first item
/// that is an account or an error decides; an error item gives its error, and
/// an answer with neither is unreadable.
pub fn verified_user(items: Vec<InstapaperResponse>) -> (r: Result<InstapaperUser, InstapaperError>)
    ensures
        ({
            let i = first_decisive(items@) as int;
            if i >= items@.len() {
                r matches Err(InstapaperError::ParseError(m)) && m@ == "No user in response"@
            } else {
                match items@[i] {
                    InstapaperResponse::User(u) => r == Ok::<InstapaperUser, InstapaperError>(u),
                    InstapaperResponse::Error(e) => r matches Err(x) && is_api_error_of(e, x),
                    _ => false,
                }
            }
        }),
{
    let ghost all = items@;
    let mut rest = items;
    let ghost mut n: int = 0;
    proof {
        lemma_first_decisive(all, 0);
        assert(all.skip(0) == all);
    }
    while rest.len() > 0
        invariant
            all == items@,
            0 <= n <= all.len(),
            rest@ == all.skip(n),
            forall|k: int| 0 <= k < n ==> !(all[k] is User) && !(all[k] is Error),
        decreases rest@.len(),
    {
        let item = rest.remove(0);
        assert(all[n] == item);
        proof {
            lemma_first_decisive(all, n);
        }
        match item {
            InstapaperResponse::User(u) => {
                return Ok(u);
            },
            InstapaperResponse::Error(e) => {
                assert(first_decisive(all) == n);
                return Err(api_error(&e));
            },
            _ => {},
        }
        proof {
            n = n + 1;
        }
        assert(rest@ == all.skip(n));
    }
    proof {
        lemma_first_decisive(all, n);
    }
    Err(InstapaperError::ParseError(String::from_str("No user in response")))
}

/// The bookmark items among `items`, in order.
pub open spec fn bookmarks_in(items: Seq<InstapaperResponse>) -> Seq<InstapaperBookmark>
    decreases items.len(),
{
    if items.len() == 0 {
        seq![]
    } else {
        let last = match items.last() {
            InstapaperResponse::Bookmark(b) => seq![b],
            _ => seq![],
        };
        bookmarks_in(items.drop_last()) + last
    }
}

/// The bookmarks that an answer to a list request carries, in order; other
/// items are dropped.
pub fn bookmarks_of(items: Vec<InstapaperResponse>) -> (r: Vec<InstapaperBookmark>)
    ensures
        r@ == bookmarks_in(items@),
{
    let ghost all = items@;
    let total = items.len();
    let mut rest = items;
    let mut out: Vec<InstapaperBookmark> = Vec::new();
    let mut n: usize = 0;
    assert(all.skip(0) == all);
    while rest.len() > 0
        invariant
            n + rest@.len() == all.len(),
            all.len() == total,
            rest@ == all.skip(n as int),
            out@ == bookmarks_in(all.take(n as int)),
        decreases rest@.len(),
    {
        let item = rest.remove(0);
        assert(all.take(n + 1).drop_last() == all.take(n as int));
        assert(all.take(n + 1).last() == item);
        match item {
            InstapaperResponse::Bookmark(b) => {
                out.push(b);
            },
            _ => {},
        }
        n = n + 1;
        assert(rest@ == all.skip(n as int));
    }
    assert(all.take(n as int) == all);
    out
}

/// The index of the first bookmark or error item of `items`, or their number.
pub open spec fn first_added(items: Seq<InstapaperResponse>) -> nat
    decreases items.len(),
{
    if items.len() == 0 {
        0
    } else if items[0] is Bookmark || items[0] is Error {
        0
    } else {
        1 + first_added(items.drop_first())
    }
}

proof fn lemma_first_added(items: Seq<InstapaperResponse>, n: int)
    requires
        0 <= n <= items.len(),
        forall|k: int| 0 <= k < n ==> !(items[k] is Bookmark) && !(items[k] is Error),
    ensures
        first_added(items) >= n,
        first_added(items) <= items.len(),
        n < items.len() && (items[n] is Bookmark || items[n] is Error) ==> first_added(items) == n,
    decreases items.len(),
{
    if items.len() > 0 && !(items[0] is Bookmark) && !(items[0] is Error) {
        lemma_first_added(items.drop_first(), if n > 0 { n - 1 } else { 0 });
    }
}

/// The bookmark that an answer to an add request names: the first item that
/// is a bookmark or an error decides; an error item gives its error, and an
/// answer with neither is unreadable.
pub fn added_bookmark(items: Vec<InstapaperResponse>) -> (r: Result<InstapaperBookmark, InstapaperError>)
    ensures
        ({
            let i = first_added(items@) as int;
            if i >= items@.len() {
                r matches Err(InstapaperError::ParseError(m)) && m@ == "No bookmark in response"@
            } else {
                match items@[i] {
                    InstapaperResponse::Bookmark(b) => r == Ok::<InstapaperBookmark, InstapaperError>(b),
                    InstapaperResponse::Error(e) => r matches Err(x) && is_api_error_of(e, x),
                    _ => false,
                }
            }
        }),
{
    let ghost all = items@;
    let mut rest = items;
    let ghost mut n: int = 0;
    assert(all.skip(0) == all);
    while rest.len() > 0
        invariant
            all == items@,
            0 <= n <= all.len(),
            rest@ == all.skip(n),
            forall|k: int| 0 <= k < n ==> !(all[k] is Bookmark) && !(all[k] is Error),
        decreases rest@.len(),
    {
        let item = rest.remove(0);
        assert(all[n] == item);
        proof {
            lemma_first_added(all, n);
        }
        match item {
            InstapaperResponse::Bookmark(b) => {
                return Ok(b);
            },
            InstapaperResponse::Error(e) => {
                return Err(api_error(&e));
            },
            _ => {},
        }
        proof {
            n = n + 1;
        }
        assert(rest@ == all.skip(n));
    }
    proof {
        lemma_first_added(all, n);
    }
    Err(InstapaperError::ParseError(String::from_str("No bookmark in response")))
}

/// The form body of a request to save the address `url`, percent-encoded.
pub fn add_bookmark_body(url: &str) -> (r: String)
    ensures
        r@ == "url="@ + percent_encoded(url@),
{
    let mut body = String::from_str("url=");
    let u = percent_encode(url);
    body.append(u.as_str());
    body
}

} // verus!
