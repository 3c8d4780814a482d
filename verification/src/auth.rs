//! The guard in front of the upload route.
//!
//! A request passes if its `api_key` header carries, as plain text, one of
//! the configured tokens. Tokens are compared by exact equality; nothing is
//! hashed, scoped or rate-limited. Every refusal is answered with
//! `401 Unauthorized`, whatever its reason.

use vstd::prelude::*;
use axum::http::{HeaderMap, HeaderValue};
use crate::response::Status;
use crate::tokens::{configured_tokens, TokenSet};

verus! {

/// `http::HeaderMap`, the headers of a request. Opaque to the verifier.
#[verifier::external_type_specification]
#[verifier::external_body]
#[verifier::reject_recursive_types(T)]
pub struct ExHeaderMap<T>(HeaderMap<T>);

/// `http::HeaderValue`, the value of one header line. Opaque to the verifier.
#[verifier::external_type_specification]
#[verifier::external_body]
pub struct ExHeaderValue(HeaderValue);

/// What a header map answers to a lookup by name: each name under which
/// `HeaderMap::get` finds a value, with the bytes of the value it returns
/// (the first one stored under that name). The map matches names without
/// regard to case, so a stored header is found under each spelling.
pub uninterp spec fn header_fields(headers: HeaderMap<HeaderValue>) -> Map<Seq<char>, Seq<u8>>;

/// Calls `HeaderMap::get` with a `&str` key and copies out the bytes of the
/// value found (`HeaderValue::as_bytes`). The lookup returns a value exactly
/// for the names that `header_fields` holds, and the bytes are the ones it
/// records; for any other name, malformed ones included, it returns `None`.
#[verifier::external_body]
fn first_value(headers: &HeaderMap<HeaderValue>, name: &str) -> (r: Option<Vec<u8>>)
    ensures
        r is Some <==> header_fields(*headers).contains_key(name@),
        r matches Some(bytes) ==> bytes@ == header_fields(*headers)[name@],
{
    headers.get(name).map(|value| value.as_bytes().to_vec())
}

/// The request header that carries the token.
pub const AUTH_HEADER: &'static str = "api_key";

/// Why a request was refused.
#[derive(Clone, Copy, Debug, PartialEq, Eq, Structural)]
pub enum AuthError {
    /// The request has no `api_key` header.
    MissingHeader,
    /// The header holds a byte that is not visible ASCII, so it is no text.
    UndecodableHeader,
    /// The header's text is not a configured token.
    UnknownToken,
}

impl AuthError {
    /// The status that answers a refused request: always `401`. The reason
    /// is not told to the client.
    pub fn status(&self) -> (r: Status)
        ensures
            r == Status::Unauthorized,
    {
        Status::Unauthorized
    }

    /// Whether the refusal is reported in the server's log: only a header
    /// that could not be read as text is.
    pub fn is_logged(&self) -> (r: bool)
        ensures
            r == (*self == AuthError::UndecodableHeader),
    {
        match self {
            AuthError::UndecodableHeader => true,
            _ => false,
        }
    }
}

/// The bytes a header value may hold to count as text: printable ASCII,
/// the space and the horizontal tab. It is the test that `http` applies
/// before it hands out a header value as a string.
pub open spec fn is_visible_ascii(b: u8) -> bool {
    (32 <= b && b < 127) || b == 9
}

/// The text of a header value: its bytes read as ASCII characters, if all
/// of them are visible ASCII.
pub open spec fn header_text(bytes: Seq<u8>) -> Option<Seq<char>> {
    if forall|i: int| 0 <= i < bytes.len() ==> is_visible_ascii(#[trigger] bytes[i]) {
        Some(Seq::new(bytes.len(), |i: int| bytes[i] as char))
    } else {
        None
    }
}

/// The verdict on a request whose `api_key` header is `header`
/// (`None` if it has none), with `tokens` configured.
pub open spec fn verdict(header: Option<Seq<u8>>, tokens: Set<Seq<char>>) -> Result<(), AuthError> {
    match header {
        None => Err(AuthError::MissingHeader),
        Some(bytes) => match header_text(bytes) {
            None => Err(AuthError::UndecodableHeader),
            Some(token) => if tokens.contains(token) {
                Ok(())
            } else {
                Err(AuthError::UnknownToken)
            },
        },
    }
}

/// Reads a header value as text. Returns `None` if some byte is not visible
/// ASCII.
pub fn decode_header(bytes: &[u8]) -> (r: Option<String>)
    ensures
        match r {
            Some(text) => header_text(bytes@) == Some(text@),
            None => header_text(bytes@) is None,
        },
{
    let mut text = String::new();
    let mut i: usize = 0;
    while i < bytes.len()
        invariant
            i <= bytes.len(),
            forall|k: int| 0 <= k < i ==> is_visible_ascii(#[trigger] bytes@[k]),
            text@ == Seq::new(i as nat, |k: int| bytes@[k] as char),
        decreases bytes.len() - i,
    {
        let b = bytes[i];
        if !((32 <= b && b < 127) || b == 9) {
            return None;
        }
        text.push(b as char);
        i += 1;
    }
    Some(text)
}

/// Decides on a request from the value of its `api_key` header, `None` if
/// the request has no such header.
pub fn authorize(header: Option<&[u8]>, tokens: &TokenSet) -> (r: Result<(), AuthError>)
    ensures
        r == verdict(
            match header {
                Some(bytes) => Some(bytes@),
                None => None,
            },
            tokens@,
        ),
        r is Ok <==> (header matches Some(bytes) && header_text(bytes@) matches Some(token)
            && tokens@.contains(token)),
{
    match header {
        None => Err(AuthError::MissingHeader),
        Some(bytes) => match decode_header(bytes) {
            None => Err(AuthError::UndecodableHeader),
            Some(token) => if tokens.contains(token.as_str()) {
                Ok(())
            } else {
                Err(AuthError::UnknownToken)
            },
        },
    }
}

/// Decides whether a request with these headers may reach the upload
/// handler: looks up the `api_key` header and judges its value.
pub fn check_auth(headers: &HeaderMap<HeaderValue>, tokens: &TokenSet) -> (r: Result<
    (),
    AuthError,
>)
    ensures
        r == verdict(header_fields(*headers).get(AUTH_HEADER@), tokens@),
{
    match first_value(headers, AUTH_HEADER) {
        Some(bytes) => authorize(Some(bytes.as_slice()), tokens),
        None => authorize(None, tokens),
    }
}

/// A text that a header value can carry: visible ASCII only.
pub open spec fn is_header_text(token: Seq<char>) -> bool {
    forall|i: int|
        0 <= i < token.len() ==> {
            let c = #[trigger] token[i];
            (' ' <= c && c <= '~') || c == '\t'
        }
}

/// The bytes of a header value that carries `token`.
pub open spec fn header_bytes(token: Seq<char>) -> Seq<u8> {
    Seq::new(token.len(), |i: int| token[i] as u8)
}

/// The upload route opens for exactly the configured tokens: a request that
/// carries `token` in its `api_key` header passes if `token` is configured,
/// and is refused as unknown if it is not.
pub proof fn lemma_admits_configured_tokens_only(token: Seq<char>, tokens: Set<Seq<char>>)
    requires
        is_header_text(token),
    ensures
        tokens.contains(token) ==> verdict(Some(header_bytes(token)), tokens) is Ok,
        !tokens.contains(token) ==> verdict(Some(header_bytes(token)), tokens) == Err::<
            (),
            AuthError,
        >(AuthError::UnknownToken),
{
    let bytes = header_bytes(token);
    assert forall|i: int| 0 <= i < bytes.len() implies is_visible_ascii(#[trigger] bytes[i]) by {
        assert(bytes[i] == token[i] as u8);
    }
    assert(header_text(bytes)->0 =~= token);
}

/// Whatever the header holds, a request passes only if the header is text
/// and that text is a configured token.
pub proof fn lemma_refuses_everything_else(header: Option<Seq<u8>>, tokens: Set<Seq<char>>)
    ensures
        verdict(header, tokens) is Ok <==> (header matches Some(bytes) && header_text(
            bytes,
        ) matches Some(token) && tokens.contains(token)),
{
}

/// Without a configured token nobody is admitted, whatever the request
/// carries, an empty header included.
pub proof fn lemma_empty_configuration_admits_nobody(header: Option<Seq<u8>>)
    ensures
        verdict(header, configured_tokens(Seq::empty())) is Err,
{
}

} // verus!
