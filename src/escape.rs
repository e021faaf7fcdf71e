//! The escape table and the scanner model that every decoding strategy meets.

use vstd::prelude::*;

verus! {

/// The character that begins an escape pair.
pub const INTRODUCER: char = '\\';

/// The one way a decode can fail: a dangling introducer, or an introducer
/// followed by a character that the escape table does not map.
#[derive(Clone, Copy, Debug, PartialEq, Eq, Structural)]
pub enum DecodeError {
    InvalidEscape,
}

/// The escape table: what the character after an introducer decodes to.
pub open spec fn escaped(c: char) -> Option<char> {
    if c == '\\' {
        Some('\\')
    } else if c == 't' {
        Some('\t')
    } else if c == 'n' {
        Some('\n')
    } else if c == 'r' {
        Some('\r')
    } else if c == '0' {
        Some('\0')
    } else if c == '"' {
        Some('"')
    } else if c == '\'' {
        Some('\'')
    } else if c == 'b' {
        Some('\x08')
    } else if c == 'f' {
        Some('\x0C')
    } else if c == 'v' {
        Some('\x0B')
    } else if c == 'a' {
        Some('\x07')
    } else {
        None
    }
}

/// Looks `c` up in the escape table.
pub fn lookup_escape(c: char) -> (r: Option<char>)
    ensures
        r == escaped(c),
{
    match c {
        '\\' => Some('\\'),
        't' => Some('\t'),
        'n' => Some('\n'),
        'r' => Some('\r'),
        '0' => Some('\0'),
        '"' => Some('"'),
        '\'' => Some('\''),
        'b' => Some('\x08'),
        'f' => Some('\x0C'),
        'v' => Some('\x0B'),
        'a' => Some('\x07'),
        _ => None,
    }
}

/// Every character that the escape table maps is ASCII.
pub proof fn lemma_escaped_ascii(c: char)
    requires
        escaped(c) is Some,
    ensures
        (c as u32) < 0x80,
{
}

/// The scanner's mode between two characters.
pub enum Mode {
    Normal,
    PendingEscape,
    Failed,
}

/// One transition of the scanner: the mode and output after reading `c`.
pub open spec fn step(m: Mode, out: Seq<char>, c: char) -> (Mode, Seq<char>) {
    match m {
        Mode::Normal => if c == INTRODUCER {
            (Mode::PendingEscape, out)
        } else {
            (Mode::Normal, out.push(c))
        },
        Mode::PendingEscape => match escaped(c) {
            Some(d) => (Mode::Normal, out.push(d)),
            None => (Mode::Failed, out),
        },
        Mode::Failed => (Mode::Failed, out),
    }
}

/// The mode and output of the scanner after reading all of `s`, left to right,
/// starting in `Normal` mode with no output.
pub open spec fn scan(s: Seq<char>) -> (Mode, Seq<char>)
    decreases s.len(),
{
    if s.len() == 0 {
        (Mode::Normal, Seq::empty())
    } else {
        let prev = scan(s.drop_last());
        step(prev.0, prev.1, s.last())
    }
}

/// What decoding `s` yields: the scanner's output when it ends in `Normal`
/// mode, and nothing when it ends on a dangling or invalid escape.
pub open spec fn decode(s: Seq<char>) -> Option<Seq<char>> {
    let r = scan(s);
    if r.0 == Mode::Normal {
        Some(r.1)
    } else {
        None
    }
}

/// What a decoding strategy owes on `input`: the decoded text when `decode`
/// succeeds, and `InvalidEscape` when it fails.
pub open spec fn decodes_as(input: Seq<char>, r: Result<String, DecodeError>) -> bool {
    match r {
        Ok(out) => decode(input) == Some(out@),
        Err(e) => decode(input) is None && e == DecodeError::InvalidEscape,
    }
}

/// Reading one more character: the scan of `s` followed by `c` is one step
/// from the scan of `s`.
pub proof fn lemma_scan_push(s: Seq<char>, c: char)
    ensures
        scan(s.push(c)) == step(scan(s).0, scan(s).1, c),
{
    assert(s.push(c).drop_last() =~= s);
}

/// Once the scanner has failed it stays failed, whatever follows.
pub proof fn lemma_failed_stays(s: Seq<char>, t: Seq<char>)
    requires
        scan(s).0 == Mode::Failed,
    ensures
        scan(s + t).0 == Mode::Failed,
    decreases t.len(),
{
    if t.len() > 0 {
        lemma_failed_stays(s, t.drop_last());
        assert((s + t).drop_last() =~= s + t.drop_last());
    } else {
        assert(s + t =~= s);
    }
}

/// Decoding fails on every input that has a prefix on which the scanner fails.
pub proof fn lemma_failed_prefix(s: Seq<char>, n: int)
    requires
        0 <= n <= s.len(),
        scan(s.take(n)).0 == Mode::Failed,
    ensures
        decode(s) is None,
{
    lemma_failed_stays(s.take(n), s.skip(n));
    assert(s.take(n) + s.skip(n) =~= s);
}

/// A run without introducers, read in `Normal` mode, is copied through and
/// leaves the scanner in `Normal` mode.
pub proof fn lemma_scan_plain(s: Seq<char>, run: Seq<char>)
    requires
        scan(s).0 == Mode::Normal,
        !run.contains(INTRODUCER),
    ensures
        scan(s + run) == (Mode::Normal, scan(s).1 + run),
    decreases run.len(),
{
    if run.len() == 0 {
        assert(s + run =~= s);
        assert(scan(s).1 + run =~= scan(s).1);
    } else {
        let init = run.drop_last();
        assert(!init.contains(INTRODUCER)) by {
            if init.contains(INTRODUCER) {
                let k = choose|k: int| 0 <= k < init.len() && init[k] == INTRODUCER;
                assert(run[k] == INTRODUCER);
            }
        }
        assert(run[run.len() - 1] != INTRODUCER);
        lemma_scan_plain(s, init);
        assert((s + run).drop_last() =~= s + init);
        assert(scan(s).1 + run =~= (scan(s).1 + init).push(run.last()));
    }
}

/// An escape pair read in `Normal` mode: the mapped character is emitted, or
/// the scanner fails when the follower has no mapping.
pub proof fn lemma_scan_pair(s: Seq<char>, c: char)
    requires
        scan(s).0 == Mode::Normal,
    ensures
        scan(s.push(INTRODUCER)) == (Mode::PendingEscape, scan(s).1),
        scan(s.push(INTRODUCER).push(c)) == (match escaped(c) {
            Some(d) => (Mode::Normal, scan(s).1.push(d)),
            None => (Mode::Failed, scan(s).1),
        }),
{
    lemma_scan_push(s, INTRODUCER);
    lemma_scan_push(s.push(INTRODUCER), c);
}

/// A step does not look at the output written before it.
proof fn lemma_step_prefix(m: Mode, o: Seq<char>, x: Seq<char>, c: char)
    ensures
        step(m, o + x, c) == (step(m, x, c).0, o + step(m, x, c).1),
{
    assert((o + x).push(c) =~= o + x.push(c));
}

/// Decoding goes item by item: after a prefix that leaves the scanner in
/// `Normal` mode, the rest is scanned as if from the start, and its output
/// follows the prefix's.
pub proof fn lemma_scan_append(p: Seq<char>, s: Seq<char>)
    requires
        scan(p).0 == Mode::Normal,
    ensures
        scan(p + s) == (scan(s).0, scan(p).1 + scan(s).1),
    decreases s.len(),
{
    if s.len() == 0 {
        assert(p + s =~= p);
        assert(scan(p).1 + scan(s).1 =~= scan(p).1);
    } else {
        lemma_scan_append(p, s.drop_last());
        assert((p + s).drop_last() =~= p + s.drop_last());
        let prev = scan(s.drop_last());
        lemma_step_prefix(prev.0, scan(p).1, prev.1, s.last());
    }
}

/// The scanner writes at most one character for each one it reads.
pub proof fn lemma_scan_len(s: Seq<char>)
    ensures
        scan(s).1.len() <= s.len(),
    decreases s.len(),
{
    if s.len() > 0 {
        lemma_scan_len(s.drop_last());
    }
}

} // verus!
