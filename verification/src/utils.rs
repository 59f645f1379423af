//! Base64 in the standard alphabet with `=` padding, as used by the
//! `Authorization: Basic` header.
//!
//! Encoding and decoding are both defined position by position: the `j`-th
//! character of an encoding and the `k`-th byte of a decoding are given by
//! closed formulas, and the two executable functions are proved against them.
//! Decoding is strict: it accepts exactly the texts that `b64_encode_bytes`
//! produces.

use crate::text::{chars_of, push_char};
use vstd::prelude::*;
use vstd::string::*;

verus! {

/// Why a text is not the base64 encoding of any byte string.
#[derive(Debug, Clone, Copy, PartialEq, Eq, Structural)]
pub enum B64DecodeError {
    /// The number of characters is not a multiple of four.
    InvalidLength,
    /// A character outside the alphabet stands where a digit is expected.
    InvalidSymbol,
    /// The last digit before the padding carries bits that no byte claims.
    TrailingBits,
}

impl B64DecodeError {
    /// What went wrong, in words.
    pub open spec fn text(self) -> Seq<char> {
        match self {
            B64DecodeError::InvalidLength => "the length is not a multiple of four"@,
            B64DecodeError::InvalidSymbol => "a character is outside the alphabet"@,
            B64DecodeError::TrailingBits => "the last digit carries stray bits"@,
        }
    }

    /// What went wrong, in words.
    pub fn message(&self) -> (s: &'static str)
        ensures
            s@ == self.text(),
    {
        match self {
            B64DecodeError::InvalidLength => "the length is not a multiple of four",
            B64DecodeError::InvalidSymbol => "a character is outside the alphabet",
            B64DecodeError::TrailingBits => "the last digit carries stray bits",
        }
    }
}

/// The character that stands for the six-bit value `v`.
pub open spec fn symbol(v: int) -> char
    recommends
        0 <= v < 64,
{
    if v < 26 {
        ((65 + v) as u8) as char
    } else if v < 52 {
        ((71 + v) as u8) as char
    } else if v < 62 {
        ((v - 4) as u8) as char
    } else if v == 62 {
        '+'
    } else {
        '/'
    }
}

/// The six-bit value that `c` stands for, or `-1` if `c` is not a digit of
/// the alphabet.
pub open spec fn digit_value(c: char) -> int {
    let u = c as u32 as int;
    if 65 <= u <= 90 {
        u - 65
    } else if 97 <= u <= 122 {
        u - 71
    } else if 48 <= u <= 57 {
        u + 4
    } else if c == '+' {
        62
    } else if c == '/' {
        63
    } else {
        -1
    }
}

/// Number of characters in the encoding of `n` bytes.
pub open spec fn encoded_len(n: int) -> int {
    ((n + 2) / 3) * 4
}

/// The byte at `i`, or zero past the end.
pub open spec fn byte_or_zero(bytes: Seq<u8>, i: int) -> int {
    if 0 <= i < bytes.len() {
        bytes[i] as int
    } else {
        0
    }
}

/// The `j`-th character of the encoding of `bytes`.
pub open spec fn encoded_char(bytes: Seq<u8>, j: int) -> char {
    let i = (j / 4) * 3;
    let b0 = byte_or_zero(bytes, i);
    let b1 = byte_or_zero(bytes, i + 1);
    let b2 = byte_or_zero(bytes, i + 2);
    let r = j % 4;
    if r == 0 {
        symbol(b0 / 4)
    } else if r == 1 {
        symbol((b0 % 4) * 16 + b1 / 16)
    } else if r == 2 {
        if i + 1 < bytes.len() {
            symbol((b1 % 16) * 4 + b2 / 64)
        } else {
            '='
        }
    } else {
        if i + 2 < bytes.len() {
            symbol(b2 % 64)
        } else {
            '='
        }
    }
}

/// The base64 encoding of `bytes`.
pub open spec fn encode_spec(bytes: Seq<u8>) -> Seq<char> {
    Seq::new(encoded_len(bytes.len() as int) as nat, |j: int| encoded_char(bytes, j))
}

/// Number of `=` characters that close `s`: at most two, and only at the end.
pub open spec fn padding_len(s: Seq<char>) -> int {
    if s.len() >= 2 && s[s.len() - 1] == '=' && s[s.len() - 2] == '=' {
        2
    } else if s.len() >= 1 && s[s.len() - 1] == '=' {
        1
    } else {
        0
    }
}

/// Number of bytes that `s` decodes to, for an `s` whose length is a multiple
/// of four.
pub open spec fn decoded_len(s: Seq<char>) -> int {
    (s.len() / 4) * 3 - padding_len(s)
}

/// The `k`-th byte of the decoding of `s`.
pub open spec fn decoded_byte(s: Seq<char>, k: int) -> u8 {
    let j = (k / 3) * 4 + k % 3;
    let a = digit_value(s[j]);
    let b = digit_value(s[j + 1]);
    let r = k % 3;
    if r == 0 {
        (a * 4 + b / 16) as u8
    } else if r == 1 {
        ((a % 16) * 16 + b / 4) as u8
    } else {
        ((a % 4) * 64 + b) as u8
    }
}

/// Every character before the padding is a digit of the alphabet.
pub open spec fn digits_valid(s: Seq<char>) -> bool {
    forall|i: int| 0 <= i < s.len() - padding_len(s) ==> digit_value(#[trigger] s[i]) >= 0
}

/// The last digit before the padding carries no bits beyond the bytes that it
/// closes.
pub open spec fn trailing_bits_clear(s: Seq<char>) -> bool {
    let p = padding_len(s);
    let last = digit_value(s[s.len() - p - 1]);
    if p == 1 {
        last % 4 == 0
    } else if p == 2 {
        last % 16 == 0
    } else {
        true
    }
}

/// What decoding `s` gives: the bytes, or the first of the three checks that
/// `s` fails.
pub open spec fn decode_spec(s: Seq<char>) -> Result<Seq<u8>, B64DecodeError> {
    if s.len() % 4 != 0 {
        Err(B64DecodeError::InvalidLength)
    } else if !digits_valid(s) {
        Err(B64DecodeError::InvalidSymbol)
    } else if !trailing_bits_clear(s) {
        Err(B64DecodeError::TrailingBits)
    } else {
        Ok(Seq::new(decoded_len(s) as nat, |k: int| decoded_byte(s, k)))
    }
}

/// A digit's value names the digit again, and the other way round; `=` is no
/// digit.
pub proof fn lemma_symbol_digit()
    ensures
        forall|v: int| 0 <= v < 64 ==> digit_value(#[trigger] symbol(v)) == v,
        forall|c: char| digit_value(c) >= 0 ==> symbol(#[trigger] digit_value(c)) == c,
        forall|c: char| -1 <= #[trigger] digit_value(c) < 64,
        digit_value('=') == -1,
{
    assert forall|v: int| 0 <= v < 64 implies digit_value(#[trigger] symbol(v)) == v by {
        if v < 26 {
            assert(((65 + v) as u8) as char as u32 == 65 + v);
        } else if v < 52 {
            assert(((71 + v) as u8) as char as u32 == 71 + v);
        } else if v < 62 {
            assert(((v - 4) as u8) as char as u32 == v - 4);
        }
    }
    assert forall|c: char| digit_value(c) >= 0 implies symbol(#[trigger] digit_value(c)) == c by {
        let u = c as u32;
        vstd::utf8::char_u32_cast(c, u);
        assert(u < 128);
        assert((u as u8) as char == u as char);
    }
}

/// The six-bit value written at position `j` of the encoding of `bytes`, for
/// a `j` where a digit stands.
spec fn encoded_value(bytes: Seq<u8>, j: int) -> int {
    let i = (j / 4) * 3;
    let b0 = byte_or_zero(bytes, i);
    let b1 = byte_or_zero(bytes, i + 1);
    let b2 = byte_or_zero(bytes, i + 2);
    let r = j % 4;
    if r == 0 {
        b0 / 4
    } else if r == 1 {
        (b0 % 4) * 16 + b1 / 16
    } else if r == 2 {
        (b1 % 16) * 4 + b2 / 64
    } else {
        b2 % 64
    }
}

/// Where the encoding of `bytes` holds `=`: at the positions of a last group
/// whose bytes are missing.
spec fn is_pad_position(bytes: Seq<u8>, j: int) -> bool {
    let i = (j / 4) * 3;
    (j % 4 == 2 && i + 1 >= bytes.len()) || (j % 4 == 3 && i + 2 >= bytes.len())
}

proof fn lemma_encoded_char(bytes: Seq<u8>, j: int)
    requires
        0 <= j < encoded_len(bytes.len() as int),
    ensures
        encode_spec(bytes)[j] == encoded_char(bytes, j),
        0 <= encoded_value(bytes, j) < 64,
        is_pad_position(bytes, j) ==> encoded_char(bytes, j) == '=',
        !is_pad_position(bytes, j) ==> digit_value(encoded_char(bytes, j)) == encoded_value(
            bytes,
            j,
        ),
{
    lemma_symbol_digit();
}

/// Three bytes cut into four six-bit values, and put together again.
proof fn lemma_split_join(b0: int, b1: int, b2: int)
    requires
        0 <= b0 < 256,
        0 <= b1 < 256,
        0 <= b2 < 256,
    ensures
        (b0 / 4) * 4 + ((b0 % 4) * 16 + b1 / 16) / 16 == b0,
        (((b0 % 4) * 16 + b1 / 16) % 16) * 16 + ((b1 % 16) * 4 + b2 / 64) / 4 == b1,
        (((b1 % 16) * 4 + b2 / 64) % 4) * 64 + b2 % 64 == b2,
        b1 == 0 ==> ((b0 % 4) * 16 + b1 / 16) % 16 == 0,
        b2 == 0 ==> ((b1 % 16) * 4 + b2 / 64) % 4 == 0,
{
}

/// Four six-bit values joined into three bytes, and cut apart again.
proof fn lemma_join_split(a: int, b: int, c: int, d: int)
    requires
        0 <= a < 64,
        0 <= b < 64,
        0 <= c < 64,
        0 <= d < 64,
    ensures
        0 <= a * 4 + b / 16 < 256,
        0 <= (b % 16) * 16 + c / 4 < 256,
        0 <= (c % 4) * 64 + d < 256,
        (a * 4 + b / 16) / 4 == a,
        ((a * 4 + b / 16) % 4) * 16 + ((b % 16) * 16 + c / 4) / 16 == b,
        (((b % 16) * 16 + c / 4) % 16) * 4 + ((c % 4) * 64 + d) / 64 == c,
        ((c % 4) * 64 + d) % 64 == d,
{
}

/// The shape of an encoding: its length, its padding, and that it passes the
/// checks of the decoder.
proof fn lemma_encoding_shape(bytes: Seq<u8>)
    ensures
        encode_spec(bytes).len() % 4 == 0,
        padding_len(encode_spec(bytes)) == (if bytes.len() % 3 == 0 {
            0int
        } else {
            3 - bytes.len() % 3
        }),
        decoded_len(encode_spec(bytes)) == bytes.len(),
        digits_valid(encode_spec(bytes)),
        trailing_bits_clear(encode_spec(bytes)),
{
    let s = encode_spec(bytes);
    let n = bytes.len() as int;
    let len = s.len() as int;
    assert(len == ((n + 2) / 3) * 4);
    let p: int = if n % 3 == 0 {
        0
    } else {
        3 - n % 3
    };
    assert(digit_value('=') == -1);
    if n > 0 {
        let g = len / 4 - 1;
        assert(g * 3 < n <= g * 3 + 3);
        assert((len - 1) / 4 == g && (len - 1) % 4 == 3);
        assert((len - 2) / 4 == g && (len - 2) % 4 == 2);
        assert((len - 3) / 4 == g && (len - 3) % 4 == 1);
        lemma_encoded_char(bytes, len - 1);
        lemma_encoded_char(bytes, len - 2);
        lemma_encoded_char(bytes, len - 3);
        lemma_split_join(
            byte_or_zero(bytes, g * 3),
            byte_or_zero(bytes, g * 3 + 1),
            byte_or_zero(bytes, g * 3 + 2),
        );
        assert(padding_len(s) == p);
        assert(trailing_bits_clear(s));
    }
    assert(padding_len(s) == p);
    assert forall|i: int| 0 <= i < len - p implies digit_value(#[trigger] s[i]) >= 0 by {
        lemma_encoded_char(bytes, i);
        assert(!is_pad_position(bytes, i)) by {
            let g = i / 4;
            if i % 4 >= 2 && g * 3 + 2 >= n {
                assert(g == len / 4 - 1);
            }
        }
    }
}

proof fn lemma_decode_encode_at(bytes: Seq<u8>, k: int)
    requires
        0 <= k < bytes.len(),
    ensures
        decoded_byte(encode_spec(bytes), k) == bytes[k],
{
    let s = encode_spec(bytes);
    let n = bytes.len() as int;
    let g = k / 3;
    let r = k % 3;
    let j = g * 4 + r;
    assert(j / 4 == g && j % 4 == r);
    assert((j + 1) / 4 == g && (j + 1) % 4 == r + 1);
    assert(j + 1 < encoded_len(n));
    lemma_encoded_char(bytes, j);
    lemma_encoded_char(bytes, j + 1);
    assert(!is_pad_position(bytes, j));
    assert(!is_pad_position(bytes, j + 1));
    lemma_split_join(
        byte_or_zero(bytes, g * 3),
        byte_or_zero(bytes, g * 3 + 1),
        byte_or_zero(bytes, g * 3 + 2),
    );
}

/// Decoding undoes encoding: every byte string comes back from its encoding.
pub proof fn lemma_decode_encode(bytes: Seq<u8>)
    ensures
        decode_spec(encode_spec(bytes)) == Ok::<Seq<u8>, B64DecodeError>(bytes),
{
    let s = encode_spec(bytes);
    lemma_encoding_shape(bytes);
    let d = Seq::new(decoded_len(s) as nat, |k: int| decoded_byte(s, k));
    assert forall|k: int| 0 <= k < bytes.len() implies d[k] == bytes[k] by {
        lemma_decode_encode_at(bytes, k);
    }
    assert(d =~= bytes);
}

proof fn lemma_encode_decode_at(s: Seq<char>, j: int)
    requires
        decode_spec(s) is Ok,
        0 <= j < s.len(),
    ensures
        encoded_char(decode_spec(s)->Ok_0, j) == s[j],
{
    let bytes = decode_spec(s)->Ok_0;
    let len = s.len() as int;
    let p = padding_len(s);
    let n = bytes.len() as int;
    let g = j / 4;
    let r = j % 4;
    let i = g * 3;
    let q = g * 4;
    assert(n == (len / 4) * 3 - p);
    assert(q + 3 < len);
    let a = digit_value(s[q]);
    let b = digit_value(s[q + 1]);
    let c0 = digit_value(s[q + 2]);
    let d0 = digit_value(s[q + 3]);
    let c = if c0 >= 0 { c0 } else { 0 };
    let d = if d0 >= 0 { d0 } else { 0 };
    lemma_symbol_digit();
    assert(a >= 0 && b >= 0) by {
        assert(q + 1 < len - p);
    }
    lemma_join_split(a, b, c, d);
    assert(bytes[i] == decoded_byte(s, i));
    assert(i / 3 == g && i % 3 == 0);
    if i + 1 < n {
        assert(q + 2 < len - p);
        assert(bytes[i + 1] == decoded_byte(s, i + 1));
        assert((i + 1) / 3 == g && (i + 1) % 3 == 1);
    } else {
        assert(q + 4 == len && p == 2);
    }
    if i + 2 < n {
        assert(q + 3 < len - p);
        assert(bytes[i + 2] == decoded_byte(s, i + 2));
        assert((i + 2) / 3 == g && (i + 2) % 3 == 2);
    } else {
        assert(q + 4 == len && p >= 1);
    }
}

/// Decoding is strict: a text that decodes is the encoding of what it decodes
/// to, so no two texts decode to the same bytes.
pub proof fn lemma_encode_decode(s: Seq<char>)
    requires
        decode_spec(s) is Ok,
    ensures
        encode_spec(decode_spec(s)->Ok_0) == s,
{
    let bytes = decode_spec(s)->Ok_0;
    let len = s.len() as int;
    let p = padding_len(s);
    assert(bytes.len() == (len / 4) * 3 - p);
    if p > 0 {
        assert(len >= 4);
    }
    assert(encoded_len(bytes.len() as int) == len);
    let e = encode_spec(bytes);
    assert forall|j: int| 0 <= j < len implies e[j] == s[j] by {
        lemma_encode_decode_at(s, j);
    }
    assert(e =~= s);
}

fn symbol_of(v: u8) -> (c: char)
    requires
        v < 64,
    ensures
        c == symbol(v as int),
{
    if v < 26 {
        (65 + v) as char
    } else if v < 52 {
        (71 + v) as char
    } else if v < 62 {
        (v - 4) as char
    } else if v == 62 {
        '+'
    } else {
        '/'
    }
}

fn value_of(c: char) -> (r: Option<u8>)
    ensures
        match r {
            Some(v) => v as int == digit_value(c) && v < 64,
            None => digit_value(c) == -1,
        },
{
    let u: u32 = c as u32;
    if 65 <= u && u <= 90 {
        Some((u - 65) as u8)
    } else if 97 <= u && u <= 122 {
        Some((u - 71) as u8)
    } else if 48 <= u && u <= 57 {
        Some((u + 4) as u8)
    } else if c == '+' {
        Some(62)
    } else if c == '/' {
        Some(63)
    } else {
        None
    }
}

fn byte_at(bytes: &[u8], i: usize, k: usize) -> (b: u8)
    requires
        i < bytes@.len(),
        k <= 2,
    ensures
        b as int == byte_or_zero(bytes@, i + k),
{
    if k < bytes.len() - i {
        bytes[i + k]
    } else {
        0
    }
}

/// Encodes `bytes` in base64.
pub fn b64_encode_bytes(bytes: &[u8]) -> (text: String)
    ensures
        text@ == encode_spec(bytes@),
{
    let n = bytes.len();
    let groups: usize = n / 3 + if n % 3 == 0 {
        0
    } else {
        1
    };
    let mut text = String::new();
    let mut g: usize = 0;
    while g < groups
        invariant
            n == bytes@.len(),
            groups == (n + 2) / 3,
            g <= groups,
            text@.len() == 4 * g,
            forall|j: int| 0 <= j < 4 * g ==> #[trigger] text@[j] == encoded_char(bytes@, j),
        decreases groups - g,
    {
        let i: usize = g * 3;
        let left: usize = n - i;
        let b0 = byte_at(bytes, i, 0);
        let b1 = byte_at(bytes, i, 1);
        let b2 = byte_at(bytes, i, 2);
        let ghost before = text@;
        push_char(&mut text, symbol_of(b0 / 4));
        push_char(&mut text, symbol_of((b0 % 4) * 16 + b1 / 16));
        if 1 < left {
            push_char(&mut text, symbol_of((b1 % 16) * 4 + b2 / 64));
        } else {
            push_char(&mut text, '=');
        }
        if 2 < left {
            push_char(&mut text, symbol_of(b2 % 64));
        } else {
            push_char(&mut text, '=');
        }
        proof {
            assert forall|j: int| 0 <= j < 4 * g + 4 implies #[trigger] text@[j] == encoded_char(
                bytes@,
                j,
            ) by {
                if j < 4 * g {
                    assert(text@[j] == before[j]);
                }
            }
        }
        g += 1;
    }
    assert(text@ =~= encode_spec(bytes@));
    text
}

/// Encodes the UTF-8 bytes of `input` in base64.
pub fn b64_encode(input: &str) -> (text: String)
    ensures
        text@ == encode_spec(input.spec_bytes()),
{
    b64_encode_bytes(input.as_bytes())
}

/// Decodes base64 `input`; fails on any text that is not an encoding.
pub fn b64_decode(input: &str) -> (result: Result<Vec<u8>, B64DecodeError>)
    ensures
        match result {
            Ok(bytes) => decode_spec(input@) == Ok::<Seq<u8>, B64DecodeError>(bytes@),
            Err(e) => decode_spec(input@) == Err::<Seq<u8>, B64DecodeError>(e),
        },
{
    let chars = chars_of(input);
    let n = chars.len();
    if n % 4 != 0 {
        return Err(B64DecodeError::InvalidLength);
    }
    let pad: usize = if n >= 2 && chars[n - 1] == '=' && chars[n - 2] == '=' {
        2
    } else if n >= 1 && chars[n - 1] == '=' {
        1
    } else {
        0
    };
    let data: usize = n - pad;
    let mut values: Vec<u8> = Vec::new();
    let mut i: usize = 0;
    while i < data
        invariant
            chars@ == input@,
            data <= chars@.len(),
            data == input@.len() - padding_len(input@),
            input@.len() % 4 == 0,
            i <= data,
            values@.len() == i,
            forall|k: int| 0 <= k < i ==> (#[trigger] values@[k]) as int == digit_value(chars@[k]),
            forall|k: int| 0 <= k < i ==> (#[trigger] values@[k]) < 64,
        decreases data - i,
    {
        match value_of(chars[i]) {
            Some(v) => {
                values.push(v);
            },
            None => {
                assert(digit_value(input@[i as int]) == -1);
                return Err(B64DecodeError::InvalidSymbol);
            },
        }
        i += 1;
    }
    assert(digits_valid(input@)) by {
        assert forall|k: int| 0 <= k < input@.len() - padding_len(input@) implies digit_value(
            #[trigger] input@[k],
        ) >= 0 by {
            assert(values@[k] as int == digit_value(chars@[k]));
        }
    }
    if pad == 1 && values[data - 1] % 4 != 0 {
        return Err(B64DecodeError::TrailingBits);
    }
    if pad == 2 && values[data - 1] % 16 != 0 {
        return Err(B64DecodeError::TrailingBits);
    }
    assert(trailing_bits_clear(input@));
    let total: usize = (n / 4) * 3 - pad;
    let mut bytes: Vec<u8> = Vec::new();
    let mut k: usize = 0;
    while k < total
        invariant
            chars@ == input@,
            n == chars@.len(),
            n % 4 == 0,
            pad <= 2,
            pad <= n,
            data == n - pad,
            total == (n / 4) * 3 - pad,
            values@.len() == data,
            forall|m: int| 0 <= m < data ==> (#[trigger] values@[m]) as int == digit_value(chars@[m]),
            forall|m: int| 0 <= m < data ==> (#[trigger] values@[m]) < 64,
            k <= total,
            bytes@.len() == k,
            forall|m: int| 0 <= m < k ==> #[trigger] bytes@[m] == decoded_byte(input@, m),
        decreases total - k,
    {
        let r: usize = k % 3;
        let j: usize = (k / 3) * 4 + r;
        assert(j + 1 < data);
        let a: u8 = values[j];
        let b: u8 = values[j + 1];
        let byte: u8 = if r == 0 {
            a * 4 + b / 16
        } else if r == 1 {
            (a % 16) * 16 + b / 4
        } else {
            (a % 4) * 64 + b
        };
        let ghost before = bytes@;
        bytes.push(byte);
        proof {
            assert forall|m: int| 0 <= m < k + 1 implies #[trigger] bytes@[m] == decoded_byte(
                input@,
                m,
            ) by {
                if m < k {
                    assert(bytes@[m] == before[m]);
                }
            }
        }
        k += 1;
    }
    assert(bytes@ =~= Seq::new(decoded_len(input@) as nat, |m: int| decoded_byte(input@, m)));
    Ok(bytes)
}

} // verus!
