//! Small building blocks for working with text as sequences of characters.

use vstd::prelude::*;
use vstd::string::*;

verus! {

/// The characters of `s`, in order.
pub(crate) fn chars_of(s: &str) -> (v: Vec<char>)
    ensures
        v@ == s@,
{
    let mut v: Vec<char> = Vec::new();
    for c in it: s.chars()
        invariant
            it.seq() == s@,
            v@ == s@.take(it.index() as int),
    {
        v.push(c);
    }
    v
}

/// `String::push`: the string afterwards is the string before followed by `c`.
#[verifier::external_body]
pub(crate) fn push_char(s: &mut String, c: char)
    ensures
        final(s)@ == old(s)@.push(c),
{
    s.push(c);
}

/// The string made of the characters `chars`, in order.
pub(crate) fn string_of(chars: &Vec<char>) -> (s: String)
    ensures
        s@ == chars@,
{
    let mut s = String::new();
    let mut i: usize = 0;
    while i < chars.len()
        invariant
            i <= chars.len(),
            s@ == chars@.take(i as int),
        decreases chars.len() - i,
    {
        push_char(&mut s, chars[i]);
        i += 1;
    }
    s
}

/// The characters of `chars` from position `from` up to, not including, `to`.
pub(crate) fn slice_of(chars: &Vec<char>, from: usize, to: usize) -> (part: Vec<char>)
    requires
        from <= to <= chars@.len(),
    ensures
        part@ == chars@.subrange(from as int, to as int),
{
    let mut part: Vec<char> = Vec::new();
    let mut i: usize = from;
    while i < to
        invariant
            from <= i <= to,
            to <= chars@.len(),
            part@ == chars@.subrange(from as int, i as int),
        decreases to - i,
    {
        part.push(chars[i]);
        i += 1;
    }
    part
}

/// Whether two pieces of text hold the same characters.
pub(crate) fn same_text(a: &str, b: &str) -> (same: bool)
    ensures
        same == (a@ == b@),
{
    let x = a.to_owned();
    let y = b.to_owned();
    x == y
}

/// `first` followed by `second`.
pub(crate) fn concat(first: &str, second: &str) -> (s: String)
    ensures
        s@ == first@ + second@,
{
    let mut s = first.to_owned();
    s.append(second);
    s
}

} // verus!
