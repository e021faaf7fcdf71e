//! Laws of decoding, stated over the scanner model that every strategy meets.

use vstd::prelude::*;
use crate::escape::{
    decode, decodes_as, escaped, scan, lemma_failed_stays, lemma_scan_append, lemma_scan_len,
    lemma_scan_pair, lemma_scan_push, DecodeError, Mode, INTRODUCER,
};
use crate::harness::{agreement_of, Agreement};

verus! {

/// An escape pair at the front decodes to its mapped character, and the rest
/// decodes as it would alone.
pub proof fn lemma_decode_pair(f: char, s: Seq<char>)
    requires
        escaped(f) is Some,
    ensures
        decode(seq![INTRODUCER, f] + s) == (match decode(s) {
            Some(o) => Some(seq![escaped(f)->Some_0] + o),
            None => None::<Seq<char>>,
        }),
{
    let pair = seq![INTRODUCER, f];
    let e: Seq<char> = Seq::empty();
    lemma_scan_pair(e, f);
    assert(e.push(INTRODUCER).push(f) =~= pair);
    assert(e.push(escaped(f)->Some_0) =~= seq![escaped(f)->Some_0]);
    lemma_scan_append(pair, s);
}

/// A character other than the introducer at the front passes through
/// unchanged, and the rest decodes as it would alone.
pub proof fn lemma_decode_plain(c: char, s: Seq<char>)
    requires
        c != INTRODUCER,
    ensures
        decode(seq![c] + s) == (match decode(s) {
            Some(o) => Some(seq![c] + o),
            None => None::<Seq<char>>,
        }),
{
    let e: Seq<char> = Seq::empty();
    lemma_scan_push(e, c);
    assert(e.push(c) =~= seq![c]);
    lemma_scan_append(seq![c], s);
}

/// An input that ends on a lone introducer, one that does not complete an
/// escape pair, does not decode.
pub proof fn lemma_trailing_introducer_fails(p: Seq<char>)
    requires
        scan(p).0 != Mode::PendingEscape,
    ensures
        decode(p.push(INTRODUCER)) is None,
{
    lemma_scan_push(p, INTRODUCER);
}

/// An introducer followed by a character outside the escape table makes the
/// whole input fail, whatever comes before or after it.
pub proof fn lemma_unknown_escape_fails(p: Seq<char>, f: char, s: Seq<char>)
    requires
        scan(p).0 != Mode::PendingEscape,
        escaped(f) is None,
    ensures
        decode(p.push(INTRODUCER).push(f) + s) is None,
{
    let q = p.push(INTRODUCER).push(f);
    lemma_scan_push(p, INTRODUCER);
    lemma_scan_push(p.push(INTRODUCER), f);
    lemma_failed_stays(q, s);
}

/// A successful decode is never longer than its input.
pub proof fn lemma_output_not_longer(s: Seq<char>)
    requires
        decode(s) is Some,
    ensures
        decode(s)->Some_0.len() <= s.len(),
{
    lemma_scan_len(s);
}

/// Two results that both meet the decoding contract on one input agree:
/// both succeed with the same text, or both fail with `InvalidEscape`. So
/// every strategy agrees with every other, and with itself on a second call;
/// on an input that decodes, they all succeed.
pub proof fn lemma_results_agree(
    input: Seq<char>,
    a: Result<String, DecodeError>,
    b: Result<String, DecodeError>,
)
    requires
        decodes_as(input, a),
        decodes_as(input, b),
    ensures
        a is Ok <==> b is Ok,
        a is Ok ==> a->Ok_0@ == b->Ok_0@,
        a is Err ==> a == b,
        decode(input) is Some ==> a is Ok,
{
}

/// Three strategies that meet the decoding contract on one input are
/// classified as identical when the input decodes, and as all failed when it
/// does not: they never differ or mix success and failure.
pub proof fn lemma_strategies_agree(
    input: Seq<char>,
    a: Result<String, DecodeError>,
    b: Result<String, DecodeError>,
    c: Result<String, DecodeError>,
)
    requires
        decodes_as(input, a),
        decodes_as(input, b),
        decodes_as(input, c),
    ensures
        agreement_of(a, b, c) == (if decode(input) is Some {
            Agreement::Identical
        } else {
            Agreement::AllFailed
        }),
{
}

} // verus!
