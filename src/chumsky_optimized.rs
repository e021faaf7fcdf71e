//! The run-batching strategy: each maximal run of characters without an
//! introducer is appended to the output in one operation.

use vstd::prelude::*;
use vstd::string::StringExecFns;
use crate::escape::{
    decodes_as, lookup_escape, scan, lemma_escaped_ascii, lemma_failed_prefix,
    lemma_scan_pair, lemma_scan_plain, DecodeError, Mode, INTRODUCER,
};
use crate::text::{push_char, skip_ascii_char, split_once_char};

verus! {

/// Decodes `input`, appending each run of plain characters as one slice.
pub fn parse(input: &str) -> (r: Result<String, DecodeError>)
    ensures
        decodes_as(input@, r),
{
    let mut out = String::new();
    let mut rest: &str = input;
    let ghost mut done: Seq<char> = Seq::empty();
    assert(input@ =~= done + rest@);
    loop
        invariant
            input@ == done + rest@,
            scan(done) == (Mode::Normal, out@),
        decreases rest@.len(),
    {
        match split_once_char(rest, INTRODUCER) {
            None => {
                proof {
                    lemma_scan_plain(done, rest@);
                }
                out.append(rest);
                return Ok(out);
            }
            Some((run, after)) => {
                proof {
                    lemma_scan_plain(done, run@);
                }
                out.append(run);
                let ghost head = done + run@;
                if after.is_empty() {
                    proof {
                        lemma_scan_pair(head, 'x');
                        assert(input@ =~= head.push(INTRODUCER));
                    }
                    return Err(DecodeError::InvalidEscape);
                }
                let follower = after.get_char(0);
                proof {
                    lemma_scan_pair(head, follower);
                    assert(input@ =~= head.push(INTRODUCER).push(follower) + after@.drop_first());
                }
                match lookup_escape(follower) {
                    Some(decoded) => {
                        push_char(&mut out, decoded);
                        proof {
                            lemma_escaped_ascii(follower);
                            done = head.push(INTRODUCER).push(follower);
                        }
                        rest = skip_ascii_char(after);
                    }
                    None => {
                        proof {
                            let p = head.push(INTRODUCER).push(follower);
                            assert(input@.take(p.len() as int) =~= p);
                            lemma_failed_prefix(input@, p.len() as int);
                        }
                        return Err(DecodeError::InvalidEscape);
                    }
                }
            }
        }
    }
}

} // verus!
