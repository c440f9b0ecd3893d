//! The weirdness scorer: a numeric measure of how likely a string is to be
//! mojibake. Replacement characters and lone C1 controls score on their
//! own; a UTF-8 leading byte read as Latin-1 followed by a character from
//! the continuation range scores as a pair. Lower is better.

use crate::classify::{
    is_mojibake_lead, is_mojibake_tail, spec_is_mojibake_lead, spec_is_mojibake_tail,
};
use vstd::prelude::*;

verus! {

/// How suspicious a single codepoint is on its own.
pub open spec fn spec_char_badness(c: char) -> int {
    if c == '\u{FFFD}' {
        4
    } else if 0x80 <= c as u32 && c as u32 <= 0x9F {
        2
    } else {
        0
    }
}

fn char_badness(c: char) -> (r: u8)
    ensures
        r as int == spec_char_badness(c),
{
    let v = c as u32;
    if v == 0xFFFD {
        4
    } else if 0x80 <= v && v <= 0x9F {
        2
    } else {
        0
    }
}

/// How suspicious two adjacent codepoints are together.
pub open spec fn spec_pair_badness(a: char, b: char) -> int {
    if spec_is_mojibake_lead(a) && spec_is_mojibake_tail(b) {
        3
    } else {
        0
    }
}

fn pair_badness(a: char, b: char) -> (r: u8)
    ensures
        r as int == spec_pair_badness(a, b),
{
    if is_mojibake_lead(a) && is_mojibake_tail(b) {
        3
    } else {
        0
    }
}

/// The weirdness score of a text: the sum of the per-character and
/// adjacent-pair contributions.
pub open spec fn spec_badness(s: Seq<char>) -> int
    decreases s.len(),
{
    if s.len() == 0 {
        0
    } else if s.len() == 1 {
        spec_char_badness(s[0])
    } else {
        spec_char_badness(s[0]) + spec_pair_badness(s[0], s[1]) + spec_badness(s.skip(1))
    }
}

/// The score never goes below zero and each position adds at most seven.
pub proof fn lemma_badness_bounds(s: Seq<char>)
    ensures
        0 <= spec_badness(s) <= 7 * s.len(),
    decreases s.len(),
{
    if s.len() > 1 {
        lemma_badness_bounds(s.skip(1));
    }
}

/// The weirdness score of the buffer.
pub fn badness(v: &Vec<char>) -> (r: u128)
    ensures
        r as int == spec_badness(v@),
{
    let mut sum: u128 = 0;
    let mut i: usize = 0;
    proof {
        assert(v@.skip(0) =~= v@);
    }
    while i < v.len()
        invariant
            i <= v.len(),
            sum as int + spec_badness(v@.skip(i as int)) == spec_badness(v@),
            sum as int <= 7 * (i as int),
        decreases v.len() - i,
    {
        let cb = char_badness(v[i]);
        let pb = if i + 1 < v.len() {
            pair_badness(v[i], v[i + 1])
        } else {
            0
        };
        proof {
            let t = v@.skip(i as int);
            assert(t.len() == v@.len() - i);
            assert(t[0] == v@[i as int]);
            if i as int + 1 < v@.len() {
                assert(t[1] == v@[i as int + 1]);
                assert(t.skip(1) =~= v@.skip(i as int + 1));
            } else {
                assert(v@.skip(i as int + 1) =~= Seq::<char>::empty());
            }
            lemma_badness_bounds(v@.skip(i as int + 1));
        }
        sum = sum + cb as u128 + pb as u128;
        i = i + 1;
    }
    proof {
        assert(v@.skip(v@.len() as int) =~= Seq::<char>::empty());
    }
    sum
}

} // verus!
