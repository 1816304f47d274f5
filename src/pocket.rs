//! The requests and answers of the older read-later service, and how its
//! requests are filled in.
use vstd::prelude::*;
use crate::numeral::{signed_decimal, signed_decimal_text};

verus! {

/// Asks the service for a request code.
#[derive(Debug)]
pub struct PocketInitiateOauthRequest {
    pub consumer_key: String,
    pub redirect_uri: String,
}

/// The request code the service handed out.
#[derive(Debug)]
pub struct PocketCodeResponse {
    pub code: String,
}

/// Trades an authorized request code for an access token.
#[derive(Debug)]
pub struct PocketAccessTokenRequest {
    pub consumer_key: String,
    pub code: String,
}

/// The access token, and the name of the reader it belongs to.
#[derive(Debug)]
pub struct PocketAccessTokenResponse {
    pub access_token: String,
    pub username: String,
}

/// Asks for one page of unread entries, newest first.
#[derive(Debug)]
pub struct PocketEntriesRequest {
    pub consumer_key: String,
    pub access_token: String,
    pub count: String,
    pub total: String,
    pub state: String,
    pub sort: String,
    pub offset: String,
}

/// One page of entries, with the number of entries in all.
#[derive(Debug)]
pub struct PocketEntriesResponse {
    pub list: Vec<PocketArticle>,
    pub total: String,
    pub status: i32,
}

/// One saved entry.
#[derive(Debug)]
pub struct PocketArticle {
    pub item_id: String,
    pub resolved_title: String,
    pub resolved_url: String,
}

/// Applies actions to entries.
#[derive(Debug)]
pub struct PocketArchiveEntryRequest {
    pub consumer_key: String,
    pub access_token: String,
    pub actions: Vec<PocketArchiveAction>,
}

/// One action on one entry.
#[derive(Debug)]
pub struct PocketArchiveAction {
    pub action: String,
    pub item_id: String,
}

impl PocketInitiateOauthRequest {
    /// The request for a code, to come back to the application's own address.
    pub fn new(consumer_key: String) -> (r: PocketInitiateOauthRequest)
        ensures
            r.consumer_key == consumer_key,
            r.redirect_uri@ == "pocket://kekw"@,
    {
        PocketInitiateOauthRequest { consumer_key, redirect_uri: String::from_str("pocket://kekw") }
    }
}

impl PocketAccessTokenRequest {
    /// The request that trades the code of `response` for a token.
    pub fn new(consumer_key: String, response: &PocketCodeResponse) -> (r: PocketAccessTokenRequest)
        ensures
            r.consumer_key == consumer_key,
            r.code@ == response.code@,
    {
        PocketAccessTokenRequest { consumer_key, code: response.code.clone() }
    }
}

impl PocketEntriesRequest {
    /// The request for the page of unread entries that starts at `offset`.
    pub fn page(consumer_key: String, access_token: String, offset: u32) -> (r:
        PocketEntriesRequest)
        ensures
            r.consumer_key == consumer_key,
            r.access_token == access_token,
            r.count@ == "30"@,
            r.total@ == "1"@,
            r.state@ == "unread"@,
            r.sort@ == "newest"@,
            r.offset@ == signed_decimal(offset as int),
    {
        PocketEntriesRequest {
            consumer_key,
            access_token,
            count: String::from_str("30"),
            total: String::from_str("1"),
            state: String::from_str("unread"),
            sort: String::from_str("newest"),
            offset: signed_decimal_text(offset as i64),
        }
    }
}

impl PocketArchiveEntryRequest {
    /// The request that archives the entry `item_id`.
    pub fn archive(consumer_key: String, access_token: String, item_id: String) -> (r:
        PocketArchiveEntryRequest)
        ensures
            r.consumer_key == consumer_key,
            r.access_token == access_token,
            r.actions@.len() == 1,
            r.actions@[0].action@ == "archive"@,
            r.actions@[0].item_id == item_id,
    {
        let mut actions: Vec<PocketArchiveAction> = Vec::new();
        actions.push(PocketArchiveAction { action: String::from_str("archive"), item_id });
        PocketArchiveEntryRequest { consumer_key, access_token, actions }
    }
}

/// What `form_urlencoded::byte_serialize` makes of a text.
pub uninterp spec fn form_encoded(s: Seq<char>) -> Seq<char>;

/// Relies on url's form_urlencoded::byte_serialize: the text's bytes in the
/// form encoding (a space as `+`, bytes other than ASCII letters, digits and
/// `*`, `-`, `.`, `_` percent-encoded); the result depends on the text alone.
#[verifier::external_body]
fn form_encode(s: &str) -> (r: String)
    ensures
        r@ == form_encoded(s@),
{
    url::form_urlencoded::byte_serialize(s.as_bytes()).collect()
}

/// The address where a reader authorizes a request code, from the query's
/// names and values as they are written in it.
pub open spec fn authorize_uri(
    code_name: Seq<char>,
    code: Seq<char>,
    back_name: Seq<char>,
    back: Seq<char>,
) -> Seq<char> {
    "https://getpocket.com/auth/authorize?"@ + code_name + "="@ + code + "&"@ + back_name + "="@
        + back
}

/// The address where a reader authorizes a request code, from the query's
/// names and values already form-encoded.
pub fn authorize_uri_from(code_name: &str, code: &str, back_name: &str, back: &str) -> (r: String)
    ensures
        r@ == authorize_uri(code_name@, code@, back_name@, back@),
{
    let mut uri = String::from_str("https://getpocket.com/auth/authorize?");
    uri.append(code_name);
    uri.append("=");
    uri.append(code);
    uri.append("&");
    uri.append(back_name);
    uri.append("=");
    uri.append(back);
    uri
}

/// The address where a reader authorizes the request code `auth_code`, with
/// the code and the way back as form-encoded query pairs.
pub fn encode_pocket_uri(auth_code: &str) -> (r: String)
    ensures
        r@ == authorize_uri(
            form_encoded("request_token"@),
            form_encoded(auth_code@),
            form_encoded("redirect_uri"@),
            form_encoded("pocket://kekw"@),
        ),
{
    let code_name = form_encode("request_token");
    let code = form_encode(auth_code);
    let back_name = form_encode("redirect_uri");
    let back = form_encode("pocket://kekw");
    authorize_uri_from(code_name.as_str(), code.as_str(), back_name.as_str(), back.as_str())
}

} // verus!
