//! Confirmation tokens: text that cannot be guessed, made from random bytes,
//! and the link that carries one.
//!
//! The random bytes come from the caller. This module turns them into text
//! that is safe inside a URL and loses none of their bits.

use crate::model::{resolved, ModelManager, StoreError};
use crate::text::{concat, push_char};
use vstd::prelude::*;
use vstd::string::*;

verus! {

/// Number of random bytes behind a token: 128 bits.
pub const TOKEN_ENTROPY_BYTES: usize = 16;

/// The path and query of a confirmation link, up to the token.
pub const CONFIRM_PATH: &'static str = "/subscriptions/confirm?token=";

/// The lower-case hexadecimal digit for `v`.
pub open spec fn hex_digit(v: int) -> char
    recommends
        0 <= v < 16,
{
    if v < 10 {
        ((48 + v) as u8) as char
    } else {
        ((87 + v) as u8) as char
    }
}

/// The value of a lower-case hexadecimal digit, or `-1` for any other
/// character.
pub open spec fn hex_value(c: char) -> int {
    let u = c as u32 as int;
    if 48 <= u <= 57 {
        u - 48
    } else if 97 <= u <= 102 {
        u - 87
    } else {
        -1
    }
}

/// The `j`-th character of the text for `bytes`: the high half of a byte, then
/// its low half.
pub open spec fn token_char(bytes: Seq<u8>, j: int) -> char {
    if j % 2 == 0 {
        hex_digit(bytes[j / 2] as int / 16)
    } else {
        hex_digit(bytes[j / 2] as int % 16)
    }
}

/// The token text for `bytes`: two hexadecimal digits for each byte.
pub open spec fn token_text(bytes: Seq<u8>) -> Seq<char> {
    Seq::new(2 * bytes.len(), |j: int| token_char(bytes, j))
}

/// Every character of `s` is a lower-case hexadecimal digit, which needs no
/// escaping in a URL.
pub open spec fn is_url_safe(s: Seq<char>) -> bool {
    forall|j: int| 0 <= j < s.len() ==> hex_value(#[trigger] s[j]) >= 0
}

/// The confirmation link for `token` under `base_url`.
pub open spec fn link_text(base_url: Seq<char>, token: Seq<char>) -> Seq<char> {
    base_url + CONFIRM_PATH@ + token
}

proof fn lemma_hex_digit(v: int)
    requires
        0 <= v < 16,
    ensures
        hex_value(hex_digit(v)) == v,
{
    if v < 10 {
        assert(((48 + v) as u8) as char as u32 == 48 + v);
    } else {
        assert(((87 + v) as u8) as char as u32 == 87 + v);
    }
}

/// Token text is safe inside a URL.
pub proof fn lemma_token_text_url_safe(bytes: Seq<u8>)
    ensures
        is_url_safe(token_text(bytes)),
        token_text(bytes).len() == 2 * bytes.len(),
{
    let s = token_text(bytes);
    assert forall|j: int| 0 <= j < s.len() implies hex_value(#[trigger] s[j]) >= 0 by {
        lemma_hex_digit(bytes[j / 2] as int / 16);
        lemma_hex_digit(bytes[j / 2] as int % 16);
    }
}

/// Token text keeps every bit: different bytes give different text.
pub proof fn lemma_token_text_injective(a: Seq<u8>, b: Seq<u8>)
    requires
        token_text(a) == token_text(b),
    ensures
        a == b,
{
    let s = token_text(a);
    let t = token_text(b);
    assert(s.len() == 2 * a.len());
    assert(t.len() == 2 * b.len());
    assert forall|i: int| 0 <= i < a.len() implies a[i] == b[i] by {
        assert(s[2 * i] == token_char(a, 2 * i));
        assert(t[2 * i] == token_char(b, 2 * i));
        assert(s[2 * i + 1] == token_char(a, 2 * i + 1));
        assert(t[2 * i + 1] == token_char(b, 2 * i + 1));
        lemma_hex_digit(a[i] as int / 16);
        lemma_hex_digit(a[i] as int % 16);
        lemma_hex_digit(b[i] as int / 16);
        lemma_hex_digit(b[i] as int % 16);
    }
    assert(a =~= b);
}

fn hex_digit_of(v: u8) -> (c: char)
    requires
        v < 16,
    ensures
        c == hex_digit(v as int),
{
    if v < 10 {
        (48 + v) as char
    } else {
        (87 + v) as char
    }
}

/// A token and the subscriber that it stands for.
#[derive(Debug)]
pub struct ConfirmationToken {
    pub token: String,
    pub subscriber_id: u128,
}

impl ConfirmationToken {
    /// Makes the token of `subscriber_id` from `entropy`, which must come from
    /// a cryptographically secure random source.
    pub fn issue(subscriber_id: u128, entropy: &[u8; 16]) -> (issued: Self)
        ensures
            issued.subscriber_id == subscriber_id,
            issued.token@ == token_text(entropy@),
            issued.token@.len() == 2 * TOKEN_ENTROPY_BYTES,
            is_url_safe(issued.token@),
    {
        let mut token = String::new();
        let mut i: usize = 0;
        while i < 16
            invariant
                i <= 16,
                entropy@.len() == 16,
                token@.len() == 2 * i,
                forall|j: int| 0 <= j < 2 * i ==> #[trigger] token@[j] == token_char(entropy@, j),
            decreases 16 - i,
        {
            let b: u8 = entropy[i];
            let ghost before = token@;
            push_char(&mut token, hex_digit_of(b / 16));
            push_char(&mut token, hex_digit_of(b % 16));
            proof {
                assert forall|j: int| 0 <= j < 2 * i + 2 implies #[trigger] token@[j] == token_char(
                    entropy@,
                    j,
                ) by {
                    if j < 2 * i {
                        assert(token@[j] == before[j]);
                    }
                }
            }
            i += 1;
        }
        proof {
            assert(token@ =~= token_text(entropy@));
            lemma_token_text_url_safe(entropy@);
        }
        ConfirmationToken { token, subscriber_id }
    }
}

/// Why a token did not lead to a subscriber.
#[derive(Debug, Clone, Copy, PartialEq, Eq, Structural)]
pub enum TokenError {
    /// The store knows no such token.
    TokenNotFound,
    /// The store failed while the token was looked up.
    Store(StoreError),
}

/// What a lookup in the store means for the token: a missing row means that
/// the token is unknown, any other failure is the store's.
pub open spec fn resolve_spec(found: Result<u128, StoreError>) -> Result<u128, TokenError> {
    match found {
        Ok(id) => Ok(id),
        Err(StoreError::NotFound) => Err(TokenError::TokenNotFound),
        Err(e) => Err(TokenError::Store(e)),
    }
}

/// Turns the store's answer to a token lookup into the token's subscriber.
pub fn resolve_outcome(found: Result<u128, StoreError>) -> (r: Result<u128, TokenError>)
    ensures
        r == resolve_spec(found),
{
    match found {
        Ok(id) => Ok(id),
        Err(StoreError::NotFound) => Err(TokenError::TokenNotFound),
        Err(e) => Err(TokenError::Store(e)),
    }
}

/// The subscriber that `token` stands for. Every token goes to the store,
/// well-formed or not, so that a malformed one is told apart from an unknown
/// one no earlier than the store tells them apart.
pub fn resolve(store: &ModelManager, token: &str) -> (r: Result<u128, TokenError>)
    requires
        store.wf(),
    ensures
        r == resolve_spec(resolved(store@, token@)),
{
    resolve_outcome(store.find_by_token(token))
}

/// The link that confirms the subscription behind `token`:
/// `<base_url>/subscriptions/confirm?token=<token>`.
pub fn confirmation_link(base_url: &str, token: &str) -> (link: String)
    ensures
        link@ == link_text(base_url@, token@),
{
    let mut link = concat(base_url, CONFIRM_PATH);
    link.append(token);
    link
}

} // verus!
