//! Thin wrappers over the std string operations that the decoders use.

use vstd::prelude::*;
use vstd::string::StringSliceAdditionalSpecFns;
use vstd::utf8::*;

verus! {

/// Relies on `String::with_capacity`: the new string is empty.
#[verifier::external_body]
pub(crate) fn string_with_capacity(n: usize) -> (r: String)
    ensures
        r@ == Seq::<char>::empty(),
{
    String::with_capacity(n)
}

/// Relies on `String::push`: `c` is appended at the end.
#[verifier::external_body]
pub(crate) fn push_char(s: &mut String, c: char)
    ensures
        final(s)@ == old(s)@.push(c),
{
    s.push(c)
}

/// Relies on `str::split_once` with a `char` pattern: the text before the
/// first occurrence of `c`, and the text after it.
#[verifier::external_body]
pub(crate) fn split_once_char(s: &str, c: char) -> (r: Option<(&str, &str)>)
    ensures
        match r {
            None => !s@.contains(c),
            Some(p) => s@ == p.0@ + seq![c] + p.1@ && !p.0@.contains(c),
        },
{
    s.split_once(c)
}

/// The UTF-8 encoding of text that starts with an ASCII character is that
/// one byte followed by the encoding of the rest.
proof fn lemma_ascii_head(s: &str)
    requires
        s@.len() > 0,
        (s@[0] as u32) < 0x80,
    ensures
        is_char_boundary(s.spec_bytes(), 1),
        s.spec_bytes().subrange(1, s.spec_bytes().len() as int) == encode_utf8(s@.drop_first()),
{
    let bytes = s.spec_bytes();
    encode_utf8_first_scalar(s@);
    encode_utf8_valid_utf8(s@);
    assert(encode_scalar(s@[0] as u32).len() == 1);
    assert(bytes == encode_scalar(s@[0] as u32) + encode_utf8(s@.drop_first()));
    assert(bytes.subrange(1, bytes.len() as int) =~= encode_utf8(s@.drop_first()));
    assert(pop_first_scalar(bytes) =~= encode_utf8(s@.drop_first()));
    assert(is_char_boundary(pop_first_scalar(bytes), 0));
}

/// The text after its first character, where that character is ASCII.
pub(crate) fn skip_ascii_char(s: &str) -> (r: &str)
    requires
        s@.len() > 0,
        (s@[0] as u32) < 0x80,
    ensures
        r@ == s@.drop_first(),
{
    proof {
        lemma_ascii_head(s);
    }
    let (_, rest) = s.split_at(1);
    proof {
        encode_utf8_decode_utf8(rest@);
        encode_utf8_decode_utf8(s@.drop_first());
    }
    rest
}

} // verus!
