//! Subscriber data as it arrives and as it is trusted.
//!
//! A [`DeserSubscriber`] is what a request carried. A [`ValidSubscriber`] can
//! only be made from one by [`validate`], so holding one is proof that the
//! name and the address passed every rule below.

use crate::text::{chars_of, slice_of};
use vstd::prelude::*;
use vstd::string::*;

verus! {

/// Longest accepted name, in characters.
pub const MAX_NAME_LEN: usize = 256;

/// Longest accepted part before the `@`, in characters.
pub const MAX_LOCAL_LEN: usize = 64;

/// Longest accepted part after the `@`, in characters.
pub const MAX_DOMAIN_LEN: usize = 255;

/// Longest accepted label of a domain, in characters.
pub const MAX_LABEL_LEN: usize = 63;

/// Why subscriber data was turned down.
#[derive(Debug, Clone, Copy, PartialEq, Eq, Structural)]
pub enum ValidationError {
    /// The name is empty or holds nothing but white space.
    EmptyName,
    /// The name has more than [`MAX_NAME_LEN`] characters.
    NameTooLong,
    /// The name holds a control character.
    ForbiddenCharacter,
    /// The address is empty.
    EmptyEmail,
    /// The address does not follow the address grammar.
    InvalidEmail,
}

/// A request that lacks a required field.
#[derive(Debug, Clone, Copy, PartialEq, Eq, Structural)]
pub enum MalformedInput {
    /// No name was given.
    MissingName,
    /// No address was given.
    MissingEmail,
}

/// Characters that Unicode marks as `White_Space`.
pub open spec fn is_whitespace(c: char) -> bool {
    let u = c as u32;
    (0x09 <= u <= 0x0D) || u == 0x20 || u == 0x85 || u == 0xA0 || u == 0x1680 || (0x2000 <= u
        <= 0x200A) || u == 0x2028 || u == 0x2029 || u == 0x202F || u == 0x205F || u == 0x3000
}

/// Characters of the Unicode category `Cc`.
pub open spec fn is_control(c: char) -> bool {
    let u = c as u32;
    u <= 0x1F || (0x7F <= u <= 0x9F)
}

/// ASCII letters and digits.
pub open spec fn is_alnum(c: char) -> bool {
    let u = c as u32;
    (48 <= u <= 57) || (65 <= u <= 90) || (97 <= u <= 122)
}

/// Characters that may stand in the part of an address before the `@`,
/// besides the dot.
pub open spec fn is_atext(c: char) -> bool {
    is_alnum(c) || c == '!' || c == '#' || c == '$' || c == '%' || c == '&' || c == '\'' || c
        == '*' || c == '+' || c == '-' || c == '/' || c == '=' || c == '?' || c == '^' || c == '_'
        || c == '`' || c == '{' || c == '|' || c == '}' || c == '~'
}

/// Nothing but white space, or nothing at all.
pub open spec fn is_blank(s: Seq<char>) -> bool {
    forall|i: int| 0 <= i < s.len() ==> is_whitespace(#[trigger] s[i])
}

/// Some character of `s` is a control character.
pub open spec fn has_control(s: Seq<char>) -> bool {
    exists|i: int| 0 <= i < s.len() && is_control(#[trigger] s[i])
}

/// The rule that `name` breaks first, if it breaks one.
pub open spec fn name_error(name: Seq<char>) -> Option<ValidationError> {
    if is_blank(name) {
        Some(ValidationError::EmptyName)
    } else if name.len() > MAX_NAME_LEN {
        Some(ValidationError::NameTooLong)
    } else if has_control(name) {
        Some(ValidationError::ForbiddenCharacter)
    } else {
        None
    }
}

/// The part before the `@`: one to [`MAX_LOCAL_LEN`] characters, each a dot or
/// one of [`is_atext`].
pub open spec fn valid_local(s: Seq<char>) -> bool {
    &&& 1 <= s.len() <= MAX_LOCAL_LEN
    &&& forall|i: int| 0 <= i < s.len() ==> is_atext(#[trigger] s[i]) || s[i] == '.'
}

/// Some dot stands among the `MAX_LABEL_LEN + 1` characters of `d` from `w`.
pub open spec fn window_has_dot(d: Seq<char>, w: int) -> bool {
    exists|k: int| w <= k <= w + MAX_LABEL_LEN && #[trigger] d[k] == '.'
}

/// The part after the `@`: labels of letters, digits and hyphens, separated by
/// single dots. A label begins and ends with a letter or digit and has at most
/// [`MAX_LABEL_LEN`] characters; the whole has at most [`MAX_DOMAIN_LEN`].
pub open spec fn valid_domain(d: Seq<char>) -> bool {
    &&& 1 <= d.len() <= MAX_DOMAIN_LEN
    &&& forall|i: int| 0 <= i < d.len() ==> is_alnum(#[trigger] d[i]) || d[i] == '-' || d[i] == '.'
    &&& is_alnum(d[0])
    &&& is_alnum(d[d.len() - 1])
    &&& forall|i: int|
        0 < i < d.len() - 1 && #[trigger] d[i] == '.' ==> is_alnum(d[i - 1]) && is_alnum(d[i + 1])
    &&& forall|w: int| 0 <= w && w + MAX_LABEL_LEN < d.len() ==> #[trigger] window_has_dot(d, w)
}

/// An address: a valid local part, an `@`, a valid domain.
pub open spec fn valid_email(s: Seq<char>) -> bool {
    exists|at: int|
        0 <= at < s.len() && #[trigger] s[at] == '@' && valid_local(s.take(at)) && valid_domain(
            s.skip(at + 1),
        )
}

/// The rule that `email` breaks first, if it breaks one.
pub open spec fn email_error(email: Seq<char>) -> Option<ValidationError> {
    if email.len() == 0 {
        Some(ValidationError::EmptyEmail)
    } else if !valid_email(email) {
        Some(ValidationError::InvalidEmail)
    } else {
        None
    }
}

/// The rule that the pair breaks first, the name's rules before the
/// address's, if it breaks one.
pub open spec fn validation_error(name: Seq<char>, email: Seq<char>) -> Option<ValidationError> {
    if name_error(name) is Some {
        name_error(name)
    } else {
        email_error(email)
    }
}

fn whitespace(c: char) -> (r: bool)
    ensures
        r == is_whitespace(c),
{
    let u: u32 = c as u32;
    (0x09 <= u && u <= 0x0D) || u == 0x20 || u == 0x85 || u == 0xA0 || u == 0x1680 || (0x2000 <= u
        && u <= 0x200A) || u == 0x2028 || u == 0x2029 || u == 0x202F || u == 0x205F || u == 0x3000
}

fn control(c: char) -> (r: bool)
    ensures
        r == is_control(c),
{
    let u: u32 = c as u32;
    u <= 0x1F || (0x7F <= u && u <= 0x9F)
}

fn alnum(c: char) -> (r: bool)
    ensures
        r == is_alnum(c),
{
    let u: u32 = c as u32;
    (48 <= u && u <= 57) || (65 <= u && u <= 90) || (97 <= u && u <= 122)
}

fn atext(c: char) -> (r: bool)
    ensures
        r == is_atext(c),
{
    alnum(c) || c == '!' || c == '#' || c == '$' || c == '%' || c == '&' || c == '\'' || c == '*'
        || c == '+' || c == '-' || c == '/' || c == '=' || c == '?' || c == '^' || c == '_' || c
        == '`' || c == '{' || c == '|' || c == '}' || c == '~'
}

fn check_name(chars: &Vec<char>) -> (r: Option<ValidationError>)
    ensures
        r == name_error(chars@),
{
    let n = chars.len();
    let mut blank = true;
    let mut forbidden = false;
    let mut i: usize = 0;
    while i < n
        invariant
            n == chars@.len(),
            i <= n,
            blank == is_blank(chars@.take(i as int)),
            forbidden == has_control(chars@.take(i as int)),
        decreases n - i,
    {
        let c = chars[i];
        let ghost before = chars@.take(i as int);
        let ghost after = chars@.take(i + 1);
        proof {
            assert(after[i as int] == c);
            assert forall|k: int| 0 <= k < i implies after[k] == before[k] by {}
            if is_blank(after) {
                assert forall|k: int| 0 <= k < before.len() implies is_whitespace(
                    #[trigger] before[k],
                ) by {
                    assert(after[k] == before[k]);
                }
            }
            if has_control(before) {
                let k = choose|k: int| 0 <= k < before.len() && is_control(#[trigger] before[k]);
                assert(is_control(after[k]));
            }
            if has_control(after) && !is_control(c) {
                let k = choose|k: int| 0 <= k < after.len() && is_control(#[trigger] after[k]);
                assert(is_control(before[k]));
            }
        }
        if !whitespace(c) {
            blank = false;
        }
        if control(c) {
            forbidden = true;
        }
        i += 1;
    }
    assert(chars@.take(n as int) =~= chars@);
    if blank {
        Some(ValidationError::EmptyName)
    } else if n > MAX_NAME_LEN {
        Some(ValidationError::NameTooLong)
    } else if forbidden {
        Some(ValidationError::ForbiddenCharacter)
    } else {
        None
    }
}

fn check_local(s: &Vec<char>) -> (r: bool)
    ensures
        r == valid_local(s@),
{
    let n = s.len();
    if n == 0 || n > MAX_LOCAL_LEN {
        return false;
    }
    let mut i: usize = 0;
    while i < n
        invariant
            n == s@.len(),
            1 <= n <= MAX_LOCAL_LEN,
            i <= n,
            forall|k: int| 0 <= k < i ==> is_atext(#[trigger] s@[k]) || s@[k] == '.',
        decreases n - i,
    {
        if !(atext(s[i]) || s[i] == '.') {
            return false;
        }
        i += 1;
    }
    true
}

fn check_domain(d: &Vec<char>) -> (r: bool)
    ensures
        r == valid_domain(d@),
{
    let n = d.len();
    if n == 0 || n > MAX_DOMAIN_LEN {
        return false;
    }
    let mut i: usize = 0;
    while i < n
        invariant
            n == d@.len(),
            i <= n,
            forall|k: int| 0 <= k < i ==> is_alnum(#[trigger] d@[k]) || d@[k] == '-' || d@[k] == '.',
        decreases n - i,
    {
        if !(alnum(d[i]) || d[i] == '-' || d[i] == '.') {
            return false;
        }
        i += 1;
    }
    if !alnum(d[0]) || !alnum(d[n - 1]) {
        return false;
    }
    i = 1;
    while i + 1 < n
        invariant
            n == d@.len(),
            n <= MAX_DOMAIN_LEN,
            1 <= i <= n,
            forall|k: int|
                0 < k < i && k < n - 1 && #[trigger] d@[k] == '.' ==> is_alnum(d@[k - 1])
                    && is_alnum(d@[k + 1]),
        decreases n - i,
    {
        if d[i] == '.' && !(alnum(d[i - 1]) && alnum(d[i + 1])) {
            return false;
        }
        i += 1;
    }
    let mut run: usize = 0;
    let ghost mut last_dot: int = -1;
    i = 0;
    while i < n
        invariant
            n == d@.len(),
            i <= n,
            -1 <= last_dot < i,
            run == i - 1 - last_dot,
            run <= MAX_LABEL_LEN,
            last_dot >= 0 ==> d@[last_dot] == '.',
            forall|k: int| last_dot < k < i ==> #[trigger] d@[k] != '.',
            forall|w: int| 0 <= w && w + MAX_LABEL_LEN < i ==> #[trigger] window_has_dot(d@, w),
        decreases n - i,
    {
        if d[i] == '.' {
            run = 0;
            proof {
                last_dot = i as int;
            }
        } else {
            run += 1;
            if run > MAX_LABEL_LEN {
                proof {
                    let w = i - MAX_LABEL_LEN;
                    assert(w == last_dot + 1);
                    assert(!window_has_dot(d@, w));
                }
                return false;
            }
        }
        proof {
            assert forall|w: int| 0 <= w && w + MAX_LABEL_LEN < i + 1 implies #[trigger] window_has_dot(
                d@,
                w,
            ) by {
                if w + MAX_LABEL_LEN == i {
                    assert(w <= last_dot <= w + MAX_LABEL_LEN);
                    assert(d@[last_dot] == '.');
                }
            }
        }
        i += 1;
    }
    true
}

fn check_email(s: &Vec<char>) -> (r: bool)
    ensures
        r == valid_email(s@),
{
    let n = s.len();
    let mut at: usize = 0;
    while at < n && s[at] != '@'
        invariant
            n == s@.len(),
            at <= n,
            forall|k: int| 0 <= k < at ==> #[trigger] s@[k] != '@',
        decreases n - at,
    {
        at += 1;
    }
    if at == n {
        return false;
    }
    let local = slice_of(s, 0, at);
    let domain = slice_of(s, at + 1, n);
    let ok = check_local(&local) && check_domain(&domain);
    proof {
        assert(local@ =~= s@.take(at as int));
        assert(domain@ =~= s@.skip(at + 1));
        if !ok && valid_email(s@) {
            let other = choose|other: int|
                0 <= other < s@.len() && #[trigger] s@[other] == '@' && valid_local(
                    s@.take(other),
                ) && valid_domain(s@.skip(other + 1));
            if other > at {
                assert(s@.take(other)[at as int] == '@');
            }
            assert(other == at);
        }
    }
    ok
}

/// Subscriber data as a request carried it; nothing has been checked.
#[derive(Debug)]
pub struct DeserSubscriber {
    pub name: String,
    pub email: String,
}

impl DeserSubscriber {
    /// Unchecked data from a name and an address.
    pub fn new(name: String, email: String) -> (raw: Self)
        ensures
            raw.name == name,
            raw.email == email,
    {
        DeserSubscriber { name, email }
    }

    /// Unchecked data from the fields of a request, both of which are
    /// required. A missing name is reported before a missing address.
    pub fn from_fields(name: Option<String>, email: Option<String>) -> (r: Result<
        Self,
        MalformedInput,
    >)
        ensures
            match r {
                Ok(raw) => name == Some(raw.name) && email == Some(raw.email),
                Err(MalformedInput::MissingName) => name is None,
                Err(MalformedInput::MissingEmail) => name is Some && email is None,
            },
    {
        match name {
            None => Err(MalformedInput::MissingName),
            Some(name) => match email {
                None => Err(MalformedInput::MissingEmail),
                Some(email) => Ok(DeserSubscriber { name, email }),
            },
        }
    }
}

/// A name that passed the rules of [`name_error`].
#[derive(Debug)]
pub struct SubscriberName {
    text: String,
}

impl SubscriberName {
    #[verifier::type_invariant]
    spec fn well_formed(self) -> bool {
        name_error(self.text@) is None
    }

    /// The characters of the name.
    pub closed spec fn view(&self) -> Seq<char> {
        self.text@
    }

    /// Checks `text` against the rules for names.
    pub fn parse(text: String) -> (r: Result<Self, ValidationError>)
        ensures
            match r {
                Ok(name) => name_error(text@) is None && name@ == text@,
                Err(e) => name_error(text@) == Some(e),
            },
    {
        let chars = chars_of(text.as_str());
        match check_name(&chars) {
            Some(e) => Err(e),
            None => Ok(SubscriberName { text }),
        }
    }

    /// The name as text; it breaks no rule.
    pub fn as_str(&self) -> (s: &str)
        ensures
            s@ == self@,
            name_error(self@) is None,
    {
        proof {
            use_type_invariant(self);
        }
        self.text.as_str()
    }
}

impl Clone for SubscriberName {
    fn clone(&self) -> (copy: Self)
        ensures
            copy@ == self@,
    {
        proof {
            use_type_invariant(self);
        }
        SubscriberName { text: self.text.clone() }
    }
}

/// An address that follows the grammar of [`valid_email`].
#[derive(Debug)]
pub struct SubscriberEmail {
    text: String,
}

impl SubscriberEmail {
    #[verifier::type_invariant]
    spec fn well_formed(self) -> bool {
        valid_email(self.text@)
    }

    /// The characters of the address.
    pub closed spec fn view(&self) -> Seq<char> {
        self.text@
    }

    /// Checks `text` against the address grammar.
    pub fn parse(text: String) -> (r: Result<Self, ValidationError>)
        ensures
            match r {
                Ok(email) => email_error(text@) is None && email@ == text@,
                Err(e) => email_error(text@) == Some(e),
            },
    {
        let chars = chars_of(text.as_str());
        if chars.len() == 0 {
            Err(ValidationError::EmptyEmail)
        } else if !check_email(&chars) {
            Err(ValidationError::InvalidEmail)
        } else {
            Ok(SubscriberEmail { text })
        }
    }

    /// The address as text; it follows the grammar.
    pub fn as_str(&self) -> (s: &str)
        ensures
            s@ == self@,
            valid_email(self@),
    {
        proof {
            use_type_invariant(self);
        }
        self.text.as_str()
    }
}

impl Clone for SubscriberEmail {
    fn clone(&self) -> (copy: Self)
        ensures
            copy@ == self@,
    {
        proof {
            use_type_invariant(self);
        }
        SubscriberEmail { text: self.text.clone() }
    }
}

/// A subscriber whose name and address have both been checked.
#[derive(Debug)]
pub struct ValidSubscriber {
    name: SubscriberName,
    email: SubscriberEmail,
}

impl ValidSubscriber {
    /// The characters of the name.
    pub closed spec fn name_view(&self) -> Seq<char> {
        self.name@
    }

    /// The characters of the address.
    pub closed spec fn email_view(&self) -> Seq<char> {
        self.email@
    }

    /// The checked name.
    pub fn name(&self) -> (name: &SubscriberName)
        ensures
            name@ == self.name_view(),
    {
        &self.name
    }

    /// The checked address.
    pub fn email(&self) -> (email: &SubscriberEmail)
        ensures
            email@ == self.email_view(),
    {
        &self.email
    }
}

impl Clone for ValidSubscriber {
    fn clone(&self) -> (copy: Self)
        ensures
            copy.name_view() == self.name_view(),
            copy.email_view() == self.email_view(),
    {
        ValidSubscriber { name: self.name.clone(), email: self.email.clone() }
    }
}

/// Turns unchecked data into a trusted subscriber, or says which rule it
/// breaks first. The name is checked before the address.
pub fn validate(raw: DeserSubscriber) -> (r: Result<ValidSubscriber, ValidationError>)
    ensures
        match r {
            Ok(subscriber) => {
                &&& validation_error(raw.name@, raw.email@) is None
                &&& subscriber.name_view() == raw.name@
                &&& subscriber.email_view() == raw.email@
            },
            Err(e) => validation_error(raw.name@, raw.email@) == Some(e),
        },
{
    let DeserSubscriber { name, email } = raw;
    match SubscriberName::parse(name) {
        Err(e) => Err(e),
        Ok(name) => match SubscriberEmail::parse(email) {
            Err(e) => Err(e),
            Ok(email) => Ok(ValidSubscriber { name, email }),
        },
    }
}

} // verus!
