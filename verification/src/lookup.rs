//! Finding the identifier of a name: the request to send, and what the
//! answer says.

use vstd::prelude::*;
use vstd::string::*;
use crate::text::{decimal, to_decimal};

verus! {

/// Seconds allowed for a lookup of an identifier.
pub const LOOKUP_TIMEOUT_SECS: u64 = 5;

/// What a JSON text holds under a key of its top-level object:
/// `Err(cause)` where the bytes are no JSON text, with the cause in the
/// parser's words; `Ok(None)` where the text is no object, the object has no
/// such key, or the value there is no string; `Ok(Some(s))` where the value
/// is the string `s`.
pub uninterp spec fn json_string_member(body: Seq<u8>, key: Seq<char>) -> Result<Option<Seq<char>>, Seq<char>>;

pub open spec fn member_view(r: Result<Option<String>, String>) -> Result<
    Option<Seq<char>>,
    Seq<char>,
> {
    match r {
        Err(cause) => Err(cause@),
        Ok(None) => Ok(None),
        Ok(Some(s)) => Ok(Some(s@)),
    }
}

/// `serde_json::from_slice` into a `serde_json::Value`, then the value's
/// index by a string key and `Value::as_str`: the string that the text
/// holds under `key`, or the `to_string` of the parser's error. The result
/// depends on the bytes and the key alone.
#[verifier::external_body]
fn string_member(body: &[u8], key: &str) -> (r: Result<Option<String>, String>)
    ensures
        member_view(r) == json_string_member(body@, key@),
{
    match serde_json::from_slice::<serde_json::Value>(body) {
        Ok(value) => Ok(value[key].as_str().map(String::from)),
        Err(e) => Err(e.to_string()),
    }
}

/// A status as `reqwest::StatusCode` shows it: the number, a space and the
/// reason phrase. There is none for a number that is no status code.
pub uninterp spec fn status_display(status: u16) -> Option<Seq<char>>;

pub open spec fn text_view(text: Option<String>) -> Option<Seq<char>> {
    match text {
        Some(t) => Some(t@),
        None => None,
    }
}

/// `reqwest::StatusCode::from_u16`, then the `to_string` of the status
/// code: its text, for a number from 100 to 999, and nothing for any other.
#[verifier::external_body]
fn status_text(status: u16) -> (text: Option<String>)
    ensures
        text_view(text) == status_display(status),
        text is Some <==> 100 <= status < 1000,
{
    reqwest::StatusCode::from_u16(status).ok().map(|code| code.to_string())
}

/// What the body of an answer holds under `id`.
pub enum IdField {
    /// The body is no JSON text; the cause in the parser's words.
    Malformed(String),
    /// The body holds no string under `id`.
    Absent,
    /// The body holds this string under `id`.
    Present(String),
}

pub enum IdFieldView {
    Malformed(Seq<char>),
    Absent,
    Present(Seq<char>),
}

impl View for IdField {
    type V = IdFieldView;

    open spec fn view(&self) -> IdFieldView {
        match self {
            IdField::Malformed(cause) => IdFieldView::Malformed(cause@),
            IdField::Absent => IdFieldView::Absent,
            IdField::Present(id) => IdFieldView::Present(id@),
        }
    }
}

/// Why no identifier was found.
#[derive(Clone, Debug, PartialEq, Eq)]
pub enum LookupError {
    /// The endpoint answered with a status outside of 200 to 299.
    Status(u16),
    /// The body of the answer is no JSON text; the cause in the parser's
    /// words.
    Malformed(String),
    /// The body of the answer holds no `id`.
    MissingId,
}

pub enum LookupErrorView {
    Status(u16),
    Malformed(Seq<char>),
    MissingId,
}

impl View for LookupError {
    type V = LookupErrorView;

    open spec fn view(&self) -> LookupErrorView {
        match self {
            LookupError::Status(status) => LookupErrorView::Status(*status),
            LookupError::Malformed(cause) => LookupErrorView::Malformed(cause@),
            LookupError::MissingId => LookupErrorView::MissingId,
        }
    }
}

/// A status from 200 to 299 says that the request succeeded.
pub open spec fn is_success(status: u16) -> bool {
    200 <= status < 300
}

pub open spec fn lookup_url(username: Seq<char>) -> Seq<char> {
    "https://api.mojang.com/users/profiles/minecraft/"@ + username
}

pub open spec fn id_field(member: Result<Option<Seq<char>>, Seq<char>>) -> IdFieldView {
    match member {
        Err(cause) => IdFieldView::Malformed(cause),
        Ok(None) => IdFieldView::Absent,
        Ok(Some(id)) => IdFieldView::Present(id),
    }
}

/// What a lookup that was answered with `status` and a body holding
/// `field` says: the identifier, or why there is none.
pub open spec fn lookup_result(status: u16, field: IdFieldView) -> Result<
    Seq<char>,
    LookupErrorView,
> {
    if !is_success(status) {
        Err(LookupErrorView::Status(status))
    } else {
        match field {
            IdFieldView::Present(id) => Ok(id),
            IdFieldView::Absent => Err(LookupErrorView::MissingId),
            IdFieldView::Malformed(cause) => Err(LookupErrorView::Malformed(cause)),
        }
    }
}

pub open spec fn result_view(r: Result<String, LookupError>) -> Result<
    Seq<char>,
    LookupErrorView,
> {
    match r {
        Ok(id) => Ok(id@),
        Err(e) => Err(e@),
    }
}

/// A status in words: as `reqwest::StatusCode` shows it, and the bare
/// number where the number is no status code.
pub open spec fn status_line(status: u16) -> Seq<char> {
    match status_display(status) {
        Some(text) => text,
        None => decimal(status as nat),
    }
}

pub open spec fn lookup_error_text(error: LookupErrorView, username: Seq<char>) -> Seq<char> {
    match error {
        LookupErrorView::Status(status) => "Failed to get UUID for "@ + username + ": "@
            + status_line(status),
        LookupErrorView::Malformed(cause) => "error decoding response body: "@ + cause,
        LookupErrorView::MissingId => "UUID not found in response"@,
    }
}

/// The address to `GET` for the identifier of `username`.
pub fn lookup_request(username: &str) -> (url: String)
    ensures
        url@ == lookup_url(username@),
{
    String::from_str("https://api.mojang.com/users/profiles/minecraft/").concat(username)
}

pub fn status_is_success(status: u16) -> (b: bool)
    ensures
        b == is_success(status),
{
    200 <= status && status < 300
}

/// Reads what a body holds under `id`.
pub fn read_id(body: &[u8]) -> (field: IdField)
    ensures
        field@ == id_field(json_string_member(body@, "id"@)),
{
    match string_member(body, "id") {
        Err(cause) => IdField::Malformed(cause),
        Ok(None) => IdField::Absent,
        Ok(Some(id)) => IdField::Present(id),
    }
}

/// Decides what a lookup says, given its status and what its body holds
/// under `id`. The body counts only where the status says success.
pub fn settle_lookup(status: u16, field: IdField) -> (r: Result<String, LookupError>)
    ensures
        result_view(r) == lookup_result(status, field@),
{
    if !status_is_success(status) {
        return Err(LookupError::Status(status));
    }
    match field {
        IdField::Present(id) => Ok(id),
        IdField::Absent => Err(LookupError::MissingId),
        IdField::Malformed(cause) => Err(LookupError::Malformed(cause)),
    }
}

/// Decides what a lookup says, given its status and its body.
pub fn get_uuid(status: u16, body: &[u8]) -> (r: Result<String, LookupError>)
    ensures
        result_view(r) == lookup_result(status, id_field(json_string_member(body@, "id"@))),
{
    if !status_is_success(status) {
        return Err(LookupError::Status(status));
    }
    settle_lookup(status, read_id(body))
}

impl LookupError {
    /// The error in words, for the name that was looked up.
    pub fn message(&self, username: &str) -> (s: String)
        ensures
            s@ == lookup_error_text(self@, username@),
    {
        match self {
            LookupError::Status(status) => {
                let line = match status_text(*status) {
                    Some(text) => text,
                    None => to_decimal(*status as u64),
                };
                String::from_str("Failed to get UUID for ").concat(username).concat(": ").concat(
                    line.as_str(),
                )
            },
            LookupError::Malformed(cause) => String::from_str(
                "error decoding response body: ",
            ).concat(cause.as_str()),
            LookupError::MissingId => String::from_str("UUID not found in response"),
        }
    }
}

} // verus!
