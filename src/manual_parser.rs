//! The hand-written strategy: one linear pass with an explicit escape flag.

use vstd::prelude::*;
use vstd::std_specs::iter::IteratorSpec;
use crate::escape::{decodes_as, lookup_escape, scan, lemma_failed_prefix, lemma_scan_push, DecodeError, Mode, INTRODUCER};
use crate::text::{push_char, string_with_capacity};

verus! {

/// Decodes `input`, one character at a time.
pub fn parse(input: &str) -> (r: Result<String, DecodeError>)
    ensures
        decodes_as(input@, r),
{
    let mut out = string_with_capacity(input.len());
    let mut last_is_escape = false;
    let mut chars = input.chars();
    let ghost mut i: int = 0;
    loop
        invariant
            0 <= i <= input@.len(),
            chars.remaining() == input@.skip(i),
            scan(input@.take(i)) == (if last_is_escape { Mode::PendingEscape } else { Mode::Normal }, out@),
        decreases input@.len() - i,
    {
        let ghost prev = input@.take(i);
        match chars.next() {
            None => {
                assert(input@.take(i) =~= input@);
                if last_is_escape {
                    return Err(DecodeError::InvalidEscape);
                }
                return Ok(out);
            }
            Some(ch) => {
                proof {
                    assert(input@.take(i + 1) =~= prev.push(ch));
                    lemma_scan_push(prev, ch);
                }
                if !last_is_escape {
                    if ch == INTRODUCER {
                        last_is_escape = true;
                    } else {
                        push_char(&mut out, ch);
                    }
                } else {
                    last_is_escape = false;
                    match lookup_escape(ch) {
                        Some(decoded) => push_char(&mut out, decoded),
                        None => {
                            proof {
                                lemma_failed_prefix(input@, i + 1);
                            }
                            return Err(DecodeError::InvalidEscape);
                        }
                    }
                }
                proof { i = i + 1; }
            }
        }
    }
}

} // verus!
