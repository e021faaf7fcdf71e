//! A deterministic generator of decodable, escape-laden sample inputs.

use vstd::prelude::*;
use crate::escape::{decode, escaped, scan, lemma_scan_pair, lemma_scan_push, Mode, INTRODUCER};
use crate::text::{push_char, string_with_capacity};

verus! {

/// Chance, in percent, that the next item is an escape pair.
pub const ESCAPE_PERCENT: u64 = 5;

/// How many characters may follow an introducer.
pub const N_FOLLOWERS: usize = 11;

/// How many printable characters stand for themselves in generated input.
pub const N_NORMAL_CHARS: usize = 90;

/// The multiplier of the generator's linear congruential sequence.
pub const LCG_MUL: u64 = 1103515245;

/// The increment of the generator's linear congruential sequence.
pub const LCG_ADD: u64 = 12345;

/// The next state of the generator's linear congruential sequence.
pub open spec fn lcg_next(state: u64) -> u64 {
    state.wrapping_mul(LCG_MUL).wrapping_add(LCG_ADD)
}

/// The characters that may follow an introducer, in the generator's order.
pub open spec fn followers() -> Seq<char> {
    "\\tnr0\"'bfva"@
}

/// The printable characters that stand for themselves in generated input.
pub open spec fn normal_chars() -> Seq<char> {
    "abcdefghijklmnopqrstuvwxyzABCDEFGHIJKLMNOPQRSTUVWXYZ0123456789 !@#$%^&*()_+-={}[]|:;<>?,./"@
}

/// The `remaining` characters that the generator writes from `state` on:
/// each item draws twice, first whether it is an escape pair (only where two
/// characters are left), then which follower or printable character.
pub open spec fn generated_from(state: u64, remaining: nat) -> Seq<char>
    decreases remaining,
{
    if remaining == 0 {
        Seq::empty()
    } else {
        let s1 = lcg_next(state);
        let s2 = lcg_next(s1);
        if s1 % 100 < ESCAPE_PERCENT && remaining >= 2 {
            let f = followers()[((s2 as usize) % N_FOLLOWERS) as int];
            seq![INTRODUCER, f] + generated_from(s2, (remaining - 2) as nat)
        } else {
            let c = normal_chars()[((s2 as usize) % N_NORMAL_CHARS) as int];
            seq![c] + generated_from(s2, (remaining - 1) as nat)
        }
    }
}

/// The sample input of `len` characters: the generator seeded with `len`.
pub open spec fn generated(len: usize) -> Seq<char> {
    generated_from(len as u64, len as nat)
}

/// A small pseudo-random source, seeded by the caller.
struct SimpleRng {
    state: u64,
}

impl SimpleRng {
    fn new(seed: u64) -> (r: Self)
        ensures
            r.state == seed,
    {
        SimpleRng { state: seed }
    }

    fn next(&mut self) -> (r: u64)
        ensures
            final(self).state == lcg_next(old(self).state),
            r == final(self).state,
    {
        self.state = self.state.wrapping_mul(LCG_MUL).wrapping_add(LCG_ADD);
        self.state
    }

    fn gen_range(&mut self, min: usize, max: usize) -> (r: usize)
        requires
            min < max,
        ensures
            final(self).state == lcg_next(old(self).state),
            min <= r < max,
            r == min + (final(self).state as usize) % ((max - min) as usize),
    {
        min + (self.next() as usize) % (max - min)
    }

    fn gen_bool(&mut self, percent: u64) -> (r: bool)
        ensures
            final(self).state == lcg_next(old(self).state),
            r == (final(self).state % 100 < percent),
    {
        (self.next() % 100) < percent
    }
}

/// The `idx`-th character that may follow an introducer.
fn escape_follower(idx: usize) -> (c: char)
    requires
        idx < N_FOLLOWERS,
    ensures
        c == followers()[idx as int],
        escaped(c) is Some,
{
    let followers = "\\tnr0\"'bfva";
    proof {
        reveal_strlit("\\tnr0\"'bfva");
    }
    followers.get_char(idx)
}

/// The `idx`-th printable character of generated input.
fn normal_char(idx: usize) -> (c: char)
    requires
        idx < N_NORMAL_CHARS,
    ensures
        c == normal_chars()[idx as int],
        c != INTRODUCER,
{
    let normal_chars = "abcdefghijklmnopqrstuvwxyzABCDEFGHIJKLMNOPQRSTUVWXYZ0123456789 !@#$%^&*()_+-={}[]|:;<>?,./";
    proof {
        reveal_strlit("abcdefghijklmnopqrstuvwxyzABCDEFGHIJKLMNOPQRSTUVWXYZ0123456789 !@#$%^&*()_+-={}[]|:;<>?,./");
    }
    normal_chars.get_char(idx)
}

/// A sample input of exactly `len` characters, seeded by `len`: printable
/// characters mixed with complete escape pairs, so that it always decodes.
pub fn generate_input(len: usize) -> (r: String)
    ensures
        r@ == generated(len),
        r@.len() == len,
        decode(r@) is Some,
{
    let mut rng = SimpleRng::new(len as u64);
    let capacity: usize = if len <= usize::MAX / 2 { len * 2 } else { len };
    let mut result = string_with_capacity(capacity);
    let mut current_len: usize = 0;
    assert(result@ + generated(len) =~= generated(len));
    while current_len < len
        invariant
            current_len <= len,
            result@.len() == current_len,
            result@ + generated_from(rng.state, (len - current_len) as nat) == generated(len),
            scan(result@).0 == Mode::Normal,
        decreases len - current_len,
    {
        let ghost before = result@;
        let ghost state = rng.state;
        let ghost rest = generated_from(state, (len - current_len) as nat);
        if rng.gen_bool(ESCAPE_PERCENT) && len - current_len >= 2 {
            let idx = rng.gen_range(0, N_FOLLOWERS);
            let follower = escape_follower(idx);
            proof {
                lemma_scan_pair(result@, follower);
            }
            push_char(&mut result, INTRODUCER);
            push_char(&mut result, follower);
            current_len = current_len + 2;
            assert(before + rest =~= result@ + generated_from(rng.state, (len - current_len) as nat));
        } else {
            let idx = rng.gen_range(0, N_NORMAL_CHARS);
            let c = normal_char(idx);
            proof {
                lemma_scan_push(result@, c);
            }
            push_char(&mut result, c);
            current_len = current_len + 1;
            assert(before + rest =~= result@ + generated_from(rng.state, (len - current_len) as nat));
        }
    }
    result
}

} // verus!
