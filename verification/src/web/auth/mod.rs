//! The guard in front of every operation that needs an operator.
//!
//! The guard reads `Authorization: Basic <base64(username:password)>`, and
//! nothing else. It keeps no state between requests.

pub mod error;

use crate::model::{stored_password, ModelManager, OperatorView, StoreError};
use crate::text::{chars_of, slice_of, string_of};
use crate::utils::{b64_decode, decode_spec, encode_spec, lemma_decode_encode};
use crate::web::auth::error::{AuthError, AuthErrorView};
use vstd::prelude::*;
use vstd::slice::slice_to_vec;
use vstd::string::*;
use vstd::utf8::{decode_utf8, encode_utf8, valid_utf8};

verus! {

/// The scheme that the guard expects.
pub const SCHEME: &'static str = "Basic";

/// Said of header bytes that are not UTF-8.
pub const HEADER_NOT_TEXT: &'static str = "the header value is not text";

/// Said of decoded credentials that are not UTF-8.
pub const CREDENTIALS_NOT_TEXT: &'static str = "the decoded credentials are not text";

/// Said when no operator has the given name.
pub const UNKNOWN_USERNAME: &'static str = "unknown username";

/// Said when the password is not the stored one.
pub const INVALID_PASSWORD: &'static str = "invalid password";

/// A name and a password as a request gave them.
pub struct CredentialsView {
    pub username: Seq<char>,
    pub password: Seq<char>,
}

/// A name and a password as a request gave them. They are compared with what
/// is stored on every call and kept nowhere.
pub struct Credentials {
    pub username: String,
    pub password: String,
}

impl View for Credentials {
    type V = CredentialsView;

    open spec fn view(&self) -> CredentialsView {
        CredentialsView { username: self.username@, password: self.password@ }
    }
}

/// Proof that the guard let an operator through. Only the guard makes one.
#[derive(Debug)]
pub struct AuthenticatedOperator {
    username: String,
}

impl AuthenticatedOperator {
    /// The operator's name.
    pub closed spec fn view(&self) -> Seq<char> {
        self.username@
    }

    /// The operator's name.
    pub fn username(&self) -> (name: &str)
        ensures
            name@ == self@,
    {
        self.username.as_str()
    }
}

/// `text` begins with the scheme `Basic` and one space.
pub open spec fn has_basic_scheme(text: Seq<char>) -> bool {
    &&& text.len() >= 6
    &&& text[0] == 'B'
    &&& text[1] == 'a'
    &&& text[2] == 's'
    &&& text[3] == 'i'
    &&& text[4] == 'c'
    &&& text[5] == ' '
}

/// The first colon of `s` stands at `i`.
pub open spec fn is_first_colon(s: Seq<char>, i: int) -> bool {
    &&& 0 <= i < s.len()
    &&& s[i] == ':'
    &&& forall|k: int| 0 <= k < i ==> #[trigger] s[k] != ':'
}

/// `s` split at its first colon: the name before it, the password after it.
/// The password may hold colons of its own.
pub open spec fn split_credentials(s: Seq<char>) -> Result<CredentialsView, AuthErrorView> {
    if exists|i: int| is_first_colon(s, i) {
        let i = choose|i: int| is_first_colon(s, i);
        Ok(CredentialsView { username: s.take(i), password: s.skip(i + 1) })
    } else {
        Err(AuthErrorView::MissingColon)
    }
}

/// What the guard reads from the text after the scheme.
pub open spec fn parse_payload(payload: Seq<char>) -> Result<CredentialsView, AuthErrorView> {
    match decode_spec(payload) {
        Err(e) => Err(AuthErrorView::Base64Decode(e)),
        Ok(bytes) => if !valid_utf8(bytes) {
            Err(AuthErrorView::InvalidUtf(CREDENTIALS_NOT_TEXT@))
        } else {
            split_credentials(decode_utf8(bytes))
        },
    }
}

/// What the guard reads from a header: the credentials, or the first check
/// that the header fails.
pub open spec fn parse_header(header: Option<Seq<u8>>) -> Result<CredentialsView, AuthErrorView> {
    match header {
        None => Err(AuthErrorView::MissingAuthHeader),
        Some(bytes) => if !valid_utf8(bytes) {
            Err(AuthErrorView::InvalidUtf(HEADER_NOT_TEXT@))
        } else if !has_basic_scheme(decode_utf8(bytes)) {
            Err(AuthErrorView::WrongAuthSchema(SCHEME@))
        } else {
            parse_payload(decode_utf8(bytes).skip(6))
        },
    }
}

/// What the guard decides once the store has answered: a store failure is
/// passed on; an unknown name and a wrong password are both turned away.
pub open spec fn check_credentials(
    given: CredentialsView,
    stored: Result<Option<Seq<char>>, StoreError>,
) -> Result<Seq<char>, AuthErrorView> {
    match stored {
        Err(e) => Err(AuthErrorView::Sqlx(e)),
        Ok(None) => Err(AuthErrorView::InvalidLoginParams(UNKNOWN_USERNAME@)),
        Ok(Some(password)) => if password == given.password {
            Ok(given.username)
        } else {
            Err(AuthErrorView::InvalidLoginParams(INVALID_PASSWORD@))
        },
    }
}

/// What the guard decides for a header, given the stored operators.
pub open spec fn authorize_spec(header: Option<Seq<u8>>, ops: Seq<OperatorView>) -> Result<
    Seq<char>,
    AuthErrorView,
> {
    match parse_header(header) {
        Err(e) => Err(e),
        Ok(given) => check_credentials(given, Ok(stored_password(ops, given.username))),
    }
}

/// The header that carries `username` and `password`: the scheme, a space,
/// and the base64 of the two joined by a colon.
pub open spec fn basic_header(username: Seq<char>, password: Seq<char>) -> Seq<u8> {
    encode_utf8("Basic "@ + encode_spec(encode_utf8(username + seq![':'] + password)))
}

/// The guard reads back what a well-made header carries: a name without a
/// colon and any password come out of their header unchanged.
pub proof fn law_header_carries_credentials(username: Seq<char>, password: Seq<char>)
    requires
        forall|i: int| 0 <= i < username.len() ==> #[trigger] username[i] != ':',
    ensures
        parse_header(Some(basic_header(username, password))) == Ok::<
            CredentialsView,
            AuthErrorView,
        >(CredentialsView { username, password }),
{
    let joined = username + seq![':'] + password;
    let payload = encode_spec(encode_utf8(joined));
    let text = "Basic "@ + payload;
    reveal_strlit("Basic ");
    vstd::utf8::encode_utf8_valid_utf8(text);
    vstd::utf8::encode_utf8_decode_utf8(text);
    assert(has_basic_scheme(text));
    assert(text.skip(6) =~= payload);
    lemma_decode_encode(encode_utf8(joined));
    vstd::utf8::encode_utf8_valid_utf8(joined);
    vstd::utf8::encode_utf8_decode_utf8(joined);
    let at = username.len() as int;
    assert(is_first_colon(joined, at));
    let chosen = choose|i: int| is_first_colon(joined, i);
    assert(chosen == at) by {
        if chosen < at {
            assert(joined[chosen] == username[chosen]);
        }
    }
    assert(joined.take(at) =~= username);
    assert(joined.skip(at + 1) =~= password);
}

/// `String::from_utf8`: the text whose UTF-8 encoding is `bytes`, or nothing
/// if `bytes` is not UTF-8.
#[verifier::external_body]
fn text_of_bytes(bytes: Vec<u8>) -> (text: Option<String>)
    ensures
        text is Some <==> valid_utf8(bytes@),
        text matches Some(t) ==> encode_utf8(t@) == bytes@,
{
    match String::from_utf8(bytes) {
        Ok(text) => Some(text),
        Err(_) => None,
    }
}

/// Whether two byte strings are equal, in time that depends on their lengths
/// alone: every byte is looked at, wherever the first difference is.
pub fn constant_time_eq(a: &[u8], b: &[u8]) -> (same: bool)
    ensures
        same == (a@ == b@),
{
    if a.len() != b.len() {
        return false;
    }
    let n = a.len();
    let mut diff: u8 = 0;
    let mut i: usize = 0;
    assert(a@.take(0) =~= b@.take(0));
    while i < n
        invariant
            n == a@.len(),
            n == b@.len(),
            i <= n,
            diff == 0 <==> a@.take(i as int) == b@.take(i as int),
        decreases n - i,
    {
        let x: u8 = a[i];
        let y: u8 = b[i];
        let ghost before = diff;
        diff = diff | (x ^ y);
        proof {
            assert((before | (x ^ y)) == 0 <==> before == 0 && x == y) by (bit_vector);
            let seen_a = a@.take(i as int);
            let seen_b = b@.take(i as int);
            let next_a = a@.take(i + 1);
            let next_b = b@.take(i + 1);
            if next_a == next_b {
                assert(next_a[i as int] == next_b[i as int]);
                assert(seen_a =~= next_a.take(i as int));
                assert(seen_b =~= next_b.take(i as int));
            }
            if seen_a == seen_b && x == y {
                assert(next_a =~= seen_a.push(x));
                assert(next_b =~= seen_b.push(y));
            }
        }
        i += 1;
    }
    proof {
        assert(a@.take(n as int) =~= a@);
        assert(b@.take(n as int) =~= b@);
    }
    diff == 0
}

/// Whether two passwords are equal, compared as [`constant_time_eq`] does.
pub fn same_password(given: &str, stored: &str) -> (same: bool)
    ensures
        same == (given@ == stored@),
{
    proof {
        vstd::utf8::encode_utf8_decode_utf8(given@);
        vstd::utf8::encode_utf8_decode_utf8(stored@);
    }
    constant_time_eq(given.as_bytes(), stored.as_bytes())
}

fn basic_scheme(text: &Vec<char>) -> (r: bool)
    ensures
        r == has_basic_scheme(text@),
{
    text.len() >= 6 && text[0] == 'B' && text[1] == 'a' && text[2] == 's' && text[3] == 'i'
        && text[4] == 'c' && text[5] == ' '
}

#[verifier::loop_isolation(false)]
fn split_at_colon(s: &Vec<char>) -> (r: Result<Credentials, AuthError>)
    ensures
        match r {
            Ok(c) => Ok::<CredentialsView, AuthErrorView>(c@),
            Err(e) => Err::<CredentialsView, AuthErrorView>(e@),
        } == split_credentials(s@),
{
    let n = s.len();
    let mut i: usize = 0;
    while i < n
        invariant
            i <= n,
            forall|k: int| 0 <= k < i ==> #[trigger] s@[k] != ':',
        decreases n - i,
    {
        if s[i] == ':' {
            proof {
                assert(is_first_colon(s@, i as int));
                let j = choose|j: int| is_first_colon(s@, j);
                assert(j == i) by {
                    if j < i {
                        assert(s@[j] != ':');
                    }
                }
            }
            let username = string_of(&slice_of(s, 0, i));
            let password = string_of(&slice_of(s, i + 1, n));
            return Ok(Credentials { username, password });
        }
        i += 1;
    }
    proof {
        assert forall|j: int| !is_first_colon(s@, j) by {
            if 0 <= j < n {
                assert(s@[j] != ':');
            }
        }
    }
    Err(AuthError::MissingColon)
}

/// Reads the credentials out of an `Authorization` header: the header must be
/// there, be text, name the scheme `Basic`, carry base64 that decodes to
/// text, and that text must hold a colon.
pub fn parse_basic_auth(header: Option<&[u8]>) -> (r: Result<Credentials, AuthError>)
    ensures
        match r {
            Ok(c) => Ok::<CredentialsView, AuthErrorView>(c@),
            Err(e) => Err::<CredentialsView, AuthErrorView>(e@),
        } == parse_header(
            match header {
                Some(bytes) => Some(bytes@),
                None => None,
            },
        ),
{
    let bytes = match header {
        None => {
            return Err(AuthError::MissingAuthHeader);
        },
        Some(bytes) => bytes,
    };
    let text = match text_of_bytes(slice_to_vec(bytes)) {
        None => {
            return Err(AuthError::InvalidUtf(HEADER_NOT_TEXT.to_owned()));
        },
        Some(text) => text,
    };
    proof {
        vstd::utf8::encode_utf8_decode_utf8(text@);
    }
    let chars = chars_of(text.as_str());
    if !basic_scheme(&chars) {
        return Err(AuthError::WrongAuthSchema(SCHEME.to_owned()));
    }
    let payload = string_of(&slice_of(&chars, 6, chars.len()));
    assert(payload@ =~= decode_utf8(bytes@).skip(6));
    let decoded = match b64_decode(payload.as_str()) {
        Err(e) => {
            return Err(AuthError::Base64Decode(e));
        },
        Ok(decoded) => decoded,
    };
    let ghost decoded_bytes = decoded@;
    let credentials = match text_of_bytes(decoded) {
        None => {
            return Err(AuthError::InvalidUtf(CREDENTIALS_NOT_TEXT.to_owned()));
        },
        Some(credentials) => credentials,
    };
    proof {
        vstd::utf8::encode_utf8_decode_utf8(credentials@);
    }
    split_at_colon(&chars_of(credentials.as_str()))
}

/// Decides on credentials once the store has answered with the password
/// stored for the name, with nothing if the name is unknown, or with a
/// failure. The passwords are compared in constant time.
pub fn verify_credentials(given: Credentials, stored: Result<Option<String>, StoreError>) -> (r:
    Result<AuthenticatedOperator, AuthError>)
    ensures
        match r {
            Ok(operator) => Ok::<Seq<char>, AuthErrorView>(operator@),
            Err(e) => Err::<Seq<char>, AuthErrorView>(e@),
        } == check_credentials(
            given@,
            match stored {
                Ok(Some(password)) => Ok(Some(password@)),
                Ok(None) => Ok(None),
                Err(e) => Err(e),
            },
        ),
{
    match stored {
        Err(e) => Err(AuthError::Sqlx(e)),
        Ok(None) => Err(AuthError::InvalidLoginParams(UNKNOWN_USERNAME.to_owned())),
        Ok(Some(password)) => {
            if same_password(given.password.as_str(), password.as_str()) {
                Ok(AuthenticatedOperator { username: given.username })
            } else {
                Err(AuthError::InvalidLoginParams(INVALID_PASSWORD.to_owned()))
            }
        },
    }
}

/// The whole guard: reads the header, looks the operator up in `store`, and
/// compares the passwords. The store is not touched unless the header parses.
pub fn authorize(header: Option<&[u8]>, store: &ModelManager) -> (r: Result<
    AuthenticatedOperator,
    AuthError,
>)
    ensures
        match r {
            Ok(operator) => Ok::<Seq<char>, AuthErrorView>(operator@),
            Err(e) => Err::<Seq<char>, AuthErrorView>(e@),
        } == authorize_spec(
            match header {
                Some(bytes) => Some(bytes@),
                None => None,
            },
            store.operators(),
        ),
{
    match parse_basic_auth(header) {
        Err(e) => Err(e),
        Ok(given) => {
            let stored = store.find_operator(given.username.as_str());
            verify_credentials(given, Ok(stored))
        },
    }
}

} // verus!
