//! The arena-backed strategy: runs are batched as in `chumsky_optimized`,
//! and the output is built in a buffer allocated from a bump arena that lives
//! exactly as long as one decode call.

use vstd::prelude::*;
use bumpalo::collections::String as ArenaString;
use bumpalo::Bump;
use crate::escape::{
    decodes_as, lookup_escape, scan, lemma_escaped_ascii, lemma_failed_prefix, lemma_scan_pair,
    lemma_scan_plain, DecodeError, Mode, INTRODUCER,
};
use crate::io::Output;
use crate::text::{skip_ascii_char, split_once_char};

verus! {

/// bumpalo's arena, carried opaquely.
#[verifier::external_type_specification]
#[verifier::external_body]
pub struct ExBump<const MIN_ALIGN: usize>(Bump<MIN_ALIGN>);

/// bumpalo's arena-allocated string, whose text is `arena_text`.
#[verifier::external_type_specification]
#[verifier::external_body]
pub struct ExArenaString<'bump>(ArenaString<'bump>);

/// The text held by an arena string.
pub uninterp spec fn arena_text(s: ArenaString<'_>) -> Seq<char>;

/// Relies on `bumpalo::Bump::new`: a fresh, empty arena.
#[verifier::external_body]
fn new_arena() -> Bump {
    Bump::new()
}

/// Relies on `bumpalo::collections::String::new_in`: an empty string in `bump`.
#[verifier::external_body]
fn arena_string_in(bump: &Bump) -> (r: ArenaString<'_>)
    ensures
        arena_text(r) == Seq::<char>::empty(),
{
    ArenaString::new_in(bump)
}

/// Relies on `bumpalo::collections::String::push_str`: `item` is appended.
#[verifier::external_body]
fn arena_push_str(s: &mut ArenaString<'_>, item: &str)
    ensures
        arena_text(*final(s)) == arena_text(*old(s)) + item@,
{
    s.push_str(item)
}

/// Relies on `bumpalo::collections::String::as_str`: the string's text.
#[verifier::external_body]
fn arena_as_str<'a>(s: &'a ArenaString<'_>) -> (r: &'a str)
    ensures
        r@ == arena_text(*s),
{
    s.as_str()
}

/// Relies on `bumpalo::collections::String::push`: `c` is appended.
#[verifier::external_body]
fn arena_push(s: &mut ArenaString<'_>, c: char)
    ensures
        arena_text(*final(s)) == arena_text(*old(s)).push(c),
{
    s.push(c)
}

/// An output buffer whose memory comes from a bump arena.
pub struct CollectString<'bump> {
    s: ArenaString<'bump>,
}

impl<'bump> View for CollectString<'bump> {
    type V = Seq<char>;

    closed spec fn view(&self) -> Seq<char> {
        arena_text(self.s)
    }
}

impl<'bump> CollectString<'bump> {
    /// An empty buffer in `bump`.
    pub fn new_in(bump: &'bump Bump) -> (r: Self)
        ensures
            r@ == Seq::<char>::empty(),
    {
        CollectString { s: arena_string_in(bump) }
    }

    /// Appends `item`.
    pub fn push(&mut self, item: &str)
        ensures
            final(self)@ == old(self)@ + item@,
    {
        arena_push_str(&mut self.s, item);
    }

    /// Appends one character.
    pub fn push_char(&mut self, c: char)
        ensures
            final(self)@ == old(self)@.push(c),
    {
        arena_push(&mut self.s, c);
    }
}

impl<'bump> Output for CollectString<'bump> {
    open spec fn text(&self) -> Seq<char> {
        self@
    }

    fn as_str(&self) -> (r: &str) {
        arena_as_str(&self.s)
    }
}

/// Decodes `input` into an arena-backed buffer, appending each run of plain
/// characters as one slice; the arena is released when the call returns.
pub fn parse(input: &str) -> (r: Result<String, DecodeError>)
    ensures
        decodes_as(input@, r),
{
    let bump = new_arena();
    let mut out = CollectString::new_in(&bump);
    let mut rest: &str = input;
    let ghost mut done: Seq<char> = Seq::empty();
    assert(input@ =~= done + rest@);
    loop
        invariant
            input@ == done + rest@,
            scan(done) == (Mode::Normal, out@),
        decreases rest@.len(),
    {
        match split_once_char(rest, INTRODUCER) {
            None => {
                proof {
                    lemma_scan_plain(done, rest@);
                }
                out.push(rest);
                return Ok(out.as_str().to_owned());
            }
            Some((run, after)) => {
                proof {
                    lemma_scan_plain(done, run@);
                }
                out.push(run);
                let ghost head = done + run@;
                if after.is_empty() {
                    proof {
                        lemma_scan_pair(head, 'x');
                        assert(input@ =~= head.push(INTRODUCER));
                    }
                    return Err(DecodeError::InvalidEscape);
                }
                let follower = after.get_char(0);
                proof {
                    lemma_scan_pair(head, follower);
                    assert(input@ =~= head.push(INTRODUCER).push(follower) + after@.drop_first());
                }
                match lookup_escape(follower) {
                    Some(decoded) => {
                        out.push_char(decoded);
                        proof {
                            lemma_escaped_ascii(follower);
                            done = head.push(INTRODUCER).push(follower);
                        }
                        rest = skip_ascii_char(after);
                    }
                    None => {
                        proof {
                            let p = head.push(INTRODUCER).push(follower);
                            assert(input@.take(p.len() as int) =~= p);
                            lemma_failed_prefix(input@, p.len() as int);
                        }
                        return Err(DecodeError::InvalidEscape);
                    }
                }
            }
        }
    }
}

} // verus!
