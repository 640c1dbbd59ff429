//! Pagination cursors: opaque tokens that carry a sort key and a numeric tiebreak.
//!
//! The token format is that of `async_graphql`'s opaque cursors. Nothing is assumed of
//! that format but that a token is a function of what it carries and that reading a
//! token is a function of the token: a token goes out only after it has been read back
//! and found to carry what was put in.
use crate::error::QueryError;
use async_graphql::connection::{CursorType, OpaqueCursor};
use vstd::prelude::*;
use vstd::string::StringExecFns;

verus! {

/// What a cursor carries: the sort key of a record and the record's tiebreak field.
#[derive(Debug)]
pub struct Cursor {
    pub key: String,
    pub tiebreak: i64,
}

/// The token that `async_graphql` writes for a key and a tiebreak.
pub uninterp spec fn opaque_token(key: Seq<char>, tiebreak: int) -> Seq<char>;

/// What `async_graphql` reads from a token: a key and a tiebreak, or nothing.
pub uninterp spec fn opaque_reading(token: Seq<char>) -> Option<(Seq<char>, int)>;

/// Writes a token. Wraps `CursorType::encode_cursor` of
/// `async_graphql::connection::OpaqueCursor<(String, i64)>`, which serialises the pair
/// and encodes the bytes; the token depends on the pair alone.
#[verifier::external_body]
fn opaque_encode(key: &str, tiebreak: i64) -> (token: String)
    ensures
        token@ == opaque_token(key@, tiebreak as int),
{
    OpaqueCursor((key.to_string(), tiebreak)).encode_cursor()
}

/// Reads a token. Wraps `CursorType::decode_cursor` of
/// `async_graphql::connection::OpaqueCursor<(String, i64)>`, which decodes the bytes
/// and deserialises the pair, and fails where either step does; the outcome depends on
/// the token alone.
#[verifier::external_body]
fn opaque_decode(token: &str) -> (r: Option<(String, i64)>)
    ensures
        match r {
            Some(p) => opaque_reading(token@) == Some((p.0@, p.1 as int)),
            None => opaque_reading(token@) is None,
        },
{
    OpaqueCursor::<(String, i64)>::decode_cursor(token).ok().map(|c| c.0)
}

/// The token for a key and a tiebreak: the one `async_graphql` writes, provided it
/// reads back as what was put in.
pub open spec fn token_of(key: Seq<char>, tiebreak: int) -> Result<Seq<char>, QueryError> {
    let token = opaque_token(key, tiebreak);
    if opaque_reading(token) == Some((key, tiebreak)) {
        Ok(token)
    } else {
        Err(QueryError::Encoding)
    }
}

/// What a token carries, or `InvalidCursor` where it cannot be read.
pub open spec fn cursor_of(token: Seq<char>) -> Result<(Seq<char>, int), QueryError> {
    match opaque_reading(token) {
        Some(p) => Ok(p),
        None => Err(QueryError::InvalidCursor),
    }
}

/// Reading a token that was written for a key and a tiebreak gives back that key and
/// that tiebreak.
pub proof fn lemma_cursor_round_trip(key: Seq<char>, tiebreak: int)
    ensures
        token_of(key, tiebreak) matches Ok(token) ==> cursor_of(token) == Ok::<
            (Seq<char>, int),
            QueryError,
        >((key, tiebreak)),
{
}

/// Decides what a token just written is worth: it is handed out where `read_back`,
/// the reading of it, is the key and the tiebreak it was written for.
pub fn checked_token(
    key: &str,
    tiebreak: i64,
    token: String,
    read_back: Option<(String, i64)>,
) -> (r: Result<String, QueryError>)
    ensures
        match read_back {
            Some(p) if p.0@ == key@ && p.1 == tiebreak => r matches Ok(s) && s@ == token@,
            _ => r matches Err(e) && e == QueryError::Encoding,
        },
{
    match read_back {
        Some(p) => {
            let wanted = String::from_str(key);
            if p.0 == wanted && p.1 == tiebreak {
                Ok(token)
            } else {
                Err(QueryError::Encoding)
            }
        },
        None => Err(QueryError::Encoding),
    }
}

/// Writes the token for a record's sort key and tiebreak.
pub fn encode_cursor(key: &str, tiebreak: i64) -> (r: Result<String, QueryError>)
    ensures
        match token_of(key@, tiebreak as int) {
            Ok(t) => r matches Ok(s) && s@ == t,
            Err(e) => r matches Err(x) && x == e,
        },
{
    let token = opaque_encode(key, tiebreak);
    let read_back = opaque_decode(token.as_str());
    checked_token(key, tiebreak, token, read_back)
}

/// Reads a token. Fails with `InvalidCursor` exactly where the token cannot be read.
pub fn decode_cursor(token: &str) -> (r: Result<Cursor, QueryError>)
    ensures
        match cursor_of(token@) {
            Ok(p) => r matches Ok(c) && c.key@ == p.0 && c.tiebreak as int == p.1,
            Err(e) => r matches Err(x) && x == e,
        },
{
    match opaque_decode(token) {
        Some(p) => Ok(Cursor { key: p.0, tiebreak: p.1 }),
        None => Err(QueryError::InvalidCursor),
    }
}

/// Reads a token that may be absent.
pub fn decode_optional_cursor(token: &Option<String>) -> (r: Result<Option<Cursor>, QueryError>)
    ensures
        match *token {
            None => r matches Ok(None),
            Some(t) => match cursor_of(t@) {
                Ok(p) => r matches Ok(Some(c)) && c.key@ == p.0 && c.tiebreak as int == p.1,
                Err(e) => r matches Err(x) && x == e,
            },
        },
{
    match token {
        None => Ok(None),
        Some(t) => match decode_cursor(t.as_str()) {
            Ok(c) => Ok(Some(c)),
            Err(e) => Err(e),
        },
    }
}

} // verus!
