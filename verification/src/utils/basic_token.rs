use vstd::prelude::*;
use vstd::utf8::{decode_utf8, encode_utf8, valid_utf8};

use crate::codec::{base64_decode, base64_decoded, string_from_utf8};
use crate::text::{is_first_char_at, lemma_split_once_at, split_once, split_once_char};

verus! {

/// Why a basic token could not be read.
#[derive(Debug, PartialEq, Eq, Structural)]
pub enum BasicTokenError {
    /// The token is not base64.
    InvalidBase64,
    /// The decoded bytes are not UTF-8.
    InvalidUtf8,
    /// The decoded text holds no `:`.
    MissingSeparator,
}

/// The text that a basic token encodes: its base64 bytes read as UTF-8.
pub open spec fn token_text(token: Seq<char>) -> Option<Seq<char>> {
    match base64_decoded(token) {
        Some(bytes) => if valid_utf8(bytes) {
            Some(decode_utf8(bytes))
        } else {
            None
        },
        None => None,
    }
}

/// The user name and password that a basic token encodes, `user:password`
/// cut at its first `:`.
pub open spec fn token_credentials(token: Seq<char>) -> Option<(Seq<char>, Seq<char>)> {
    match token_text(token) {
        Some(text) => split_once(text, ':'),
        None => None,
    }
}

/// A token that is the base64 of the UTF-8 text `user:password` reads back
/// as that user name and password, when the user name holds no `:` (the
/// password may).
pub proof fn lemma_token_round_trip(token: Seq<char>, user: Seq<char>, password: Seq<char>)
    ensures
        base64_decoded(token) == Some(encode_utf8(user + seq![':'] + password)) && !user.contains(
            ':',
        ) ==> token_credentials(token) == Some((user, password)),
{
    let text = user + seq![':'] + password;
    if base64_decoded(token) == Some(encode_utf8(text)) && !user.contains(':') {
        vstd::utf8::encode_utf8_valid_utf8(text);
        vstd::utf8::encode_utf8_decode_utf8(text);
        assert(token_text(token) == Some(text));
        let i = user.len() as int;
        assert forall|j: int| 0 <= j < i implies text[j] != ':' by {
            assert(text[j] == user[j]);
        }
        assert(is_first_char_at(text, ':', i));
        lemma_split_once_at(text, ':', i);
        assert(text.take(i) =~= user);
        assert(text.skip(i + 1) =~= password);
    }
}

/// Decodes a basic token (base64 of `user:password`) into its user name and
/// password.
pub fn decode(basic_token: &str) -> (r: (String, String))
    requires
        token_credentials(basic_token@) is Some,
    ensures
        token_credentials(basic_token@) == Some((r.0@, r.1@)),
{
    let bytes = match base64_decode(basic_token) {
        Ok(bytes) => bytes,
        Err(_) => {
            proof {
                assert(false);
            }
            Vec::new()
        },
    };
    let text = match string_from_utf8(bytes) {
        Ok(text) => text,
        Err(_) => {
            proof {
                assert(false);
            }
            String::new()
        },
    };
    match split_once_char(text.as_str(), ':') {
        Some(pair) => pair,
        None => {
            proof {
                assert(false);
            }
            (String::new(), String::new())
        },
    }
}

/// Reads a basic token, saying which step failed; where every step
/// succeeds it gives what `decode` gives.
pub fn try_decode(basic_token: &str) -> (r: Result<(String, String), BasicTokenError>)
    ensures
        match r {
            Ok((user, password)) => token_credentials(basic_token@) == Some((user@, password@)),
            Err(BasicTokenError::InvalidBase64) => base64_decoded(basic_token@) is None,
            Err(BasicTokenError::InvalidUtf8) => base64_decoded(basic_token@) is Some
                && token_text(basic_token@) is None,
            Err(BasicTokenError::MissingSeparator) => token_text(basic_token@) is Some
                && token_credentials(basic_token@) is None,
        },
{
    let bytes = match base64_decode(basic_token) {
        Ok(bytes) => bytes,
        Err(_) => {
            return Err(BasicTokenError::InvalidBase64);
        },
    };
    let text = match string_from_utf8(bytes) {
        Ok(text) => text,
        Err(_) => {
            return Err(BasicTokenError::InvalidUtf8);
        },
    };
    match split_once_char(text.as_str(), ':') {
        Some(pair) => Ok(pair),
        None => Err(BasicTokenError::MissingSeparator),
    }
}

} // verus!
