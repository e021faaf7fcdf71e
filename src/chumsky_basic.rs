//! The item-by-item strategy: the input is read as a sequence of items, each
//! either one plain character or one escape pair, and each item adds one
//! character to the output.

use vstd::prelude::*;
use vstd::std_specs::iter::IteratorSpec;
use crate::escape::{
    decodes_as, lookup_escape, scan, lemma_failed_prefix, lemma_scan_pair, lemma_scan_push,
    DecodeError, Mode, INTRODUCER,
};
use crate::text::push_char;

verus! {

/// Decodes `input`, one item at a time.
pub fn parse(input: &str) -> (r: Result<String, DecodeError>)
    ensures
        decodes_as(input@, r),
{
    let mut out = String::new();
    let mut chars = input.chars();
    let ghost mut i: int = 0;
    loop
        invariant
            0 <= i <= input@.len(),
            chars.remaining() == input@.skip(i),
            scan(input@.take(i)) == (Mode::Normal, out@),
        decreases input@.len() - i,
    {
        let ghost prev = input@.take(i);
        match chars.next() {
            None => {
                assert(input@.take(i) =~= input@);
                return Ok(out);
            }
            Some(ch) => {
                if ch == INTRODUCER {
                    match chars.next() {
                        None => {
                            proof {
                                lemma_scan_pair(prev, 'x');
                                assert(input@ =~= prev.push(INTRODUCER));
                            }
                            return Err(DecodeError::InvalidEscape);
                        }
                        Some(follower) => {
                            proof {
                                lemma_scan_pair(prev, follower);
                                assert(input@.take(i + 2) =~= prev.push(INTRODUCER).push(follower));
                            }
                            match lookup_escape(follower) {
                                Some(decoded) => push_char(&mut out, decoded),
                                None => {
                                    proof {
                                        lemma_failed_prefix(input@, i + 2);
                                    }
                                    return Err(DecodeError::InvalidEscape);
                                }
                            }
                            proof {
                                i = i + 2;
                            }
                        }
                    }
                } else {
                    proof {
                        assert(input@.take(i + 1) =~= prev.push(ch));
                        lemma_scan_push(prev, ch);
                    }
                    push_char(&mut out, ch);
                    proof {
                        i = i + 1;
                    }
                }
            }
        }
    }
}

} // verus!
