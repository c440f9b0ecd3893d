//! The encoding re-decoder and its scored fixed-point loop: the mojibake
//! repair primitive. A candidate is what the text becomes when its
//! characters are re-encoded as Latin-1 or Windows-1252 bytes and those
//! bytes are decoded again as UTF-8; a candidate replaces the text only
//! when it strictly lowers the weirdness score.

use crate::badness::{badness, spec_badness};
use crate::classify::{cp1252_byte_of_char, spec_cp1252_byte_of_char};
use crate::config::TextFixerConfig;
use crate::textbuf::{str_to_chars, utf8_to_string};
use crate::utf8runs::spec_byte_1252_total;
use vstd::prelude::*;
use vstd::utf8::{decode_utf8, valid_utf8};

verus! {

/// The cap on scored re-decoding iterations: a defensive bound on top of
/// the strict-improvement termination criterion.
pub const MAX_ENCODING_PASSES: usize = 5;

pub open spec fn spec_all_latin1(s: Seq<char>) -> bool {
    forall|i: int| 0 <= i < s.len() ==> (#[trigger] s[i] as u32) <= 0xFF
}

pub open spec fn spec_latin1_bytes(s: Seq<char>) -> Seq<u8> {
    Seq::new(s.len(), |i: int| s[i] as u8)
}

/// What the text becomes if it was UTF-8 read as Latin-1: encode each
/// character as its Latin-1 byte and decode the bytes as UTF-8.
pub open spec fn spec_latin1_candidate(s: Seq<char>) -> Option<Seq<char>> {
    if spec_all_latin1(s) && valid_utf8(spec_latin1_bytes(s)) {
        Some(decode_utf8(spec_latin1_bytes(s)))
    } else {
        None
    }
}

pub open spec fn spec_all_1252(s: Seq<char>) -> bool {
    forall|i: int| 0 <= i < s.len() ==> spec_cp1252_byte_of_char(#[trigger] s[i]) is Some
}

pub open spec fn spec_1252_bytes(s: Seq<char>) -> Seq<u8> {
    Seq::new(s.len(), |i: int| spec_byte_1252_total(s[i]))
}

/// What the text becomes if it was UTF-8 read as Windows-1252.
pub open spec fn spec_1252_candidate(s: Seq<char>) -> Option<Seq<char>> {
    if spec_all_1252(s) && valid_utf8(spec_1252_bytes(s)) {
        Some(decode_utf8(spec_1252_bytes(s)))
    } else {
        None
    }
}

/// Whether the re-decoder may touch this text at all: a non-positive
/// bound disables it, and a text longer than the bound is skipped to keep
/// the cost of repeated re-decoding in check.
pub open spec fn spec_enc_allowed(c: TextFixerConfig, s: Seq<char>) -> bool {
    c.max_decode_length > 0 && s.len() <= c.max_decode_length as int
}

/// One scored step: the best candidate in the fixed encoding-pair order
/// (Latin-1 first, then Windows-1252, earlier wins ties), provided it
/// strictly improves on the current score.
pub open spec fn spec_enc_step(c: TextFixerConfig, s: Seq<char>) -> Option<Seq<char>> {
    if !spec_enc_allowed(c, s) {
        None
    } else {
        let cur = spec_badness(s);
        match (spec_latin1_candidate(s), spec_1252_candidate(s)) {
            (Some(a), Some(b)) => {
                if spec_badness(a) < cur && spec_badness(a) <= spec_badness(b) {
                    Some(a)
                } else if spec_badness(b) < cur && spec_badness(b) < spec_badness(a) {
                    Some(b)
                } else {
                    None
                }
            },
            (Some(a), None) => {
                if spec_badness(a) < cur {
                    Some(a)
                } else {
                    None
                }
            },
            (None, Some(b)) => {
                if spec_badness(b) < cur {
                    Some(b)
                } else {
                    None
                }
            },
            (None, None) => None,
        }
    }
}

/// The re-decoding loop: apply improving steps until none remains or the
/// fuel runs out; also counts how many steps were applied.
pub open spec fn spec_enc_fix(c: TextFixerConfig, s: Seq<char>, fuel: nat) -> (Seq<char>, nat)
    decreases fuel,
{
    if fuel == 0 {
        (s, 0nat)
    } else {
        match spec_enc_step(c, s) {
            None => (s, 0nat),
            Some(t) => {
                let r = spec_enc_fix(c, t, (fuel - 1) as nat);
                (r.0, (r.1 + 1) as nat)
            },
        }
    }
}

/// The Latin-1 re-decoding candidate.
fn latin1_candidate(v: &Vec<char>) -> (r: Option<Vec<char>>)
    ensures
        match r {
            Some(w) => spec_latin1_candidate(v@) == Some(w@),
            None => spec_latin1_candidate(v@) is None,
        },
{
    let mut bytes: Vec<u8> = Vec::new();
    let mut i: usize = 0;
    while i < v.len()
        invariant
            i <= v.len(),
            bytes@.len() == i,
            forall|q: int| 0 <= q < i ==> (#[trigger] v@[q] as u32) <= 0xFF,
            forall|q: int| 0 <= q < i ==> #[trigger] bytes@[q] == (v@[q] as u8),
        decreases v.len() - i,
    {
        let c = v[i];
        if (c as u32) > 0xFF {
            proof {
                assert(!spec_all_latin1(v@));
            }
            return None;
        }
        bytes.push(c as u8);
        i = i + 1;
    }
    proof {
        assert(spec_all_latin1(v@));
        assert(bytes@ =~= spec_latin1_bytes(v@));
    }
    match utf8_to_string(bytes) {
        Some(st) => {
            let w = str_to_chars(st.as_str());
            Some(w)
        },
        None => None,
    }
}

/// The Windows-1252 re-decoding candidate.
fn cp1252_candidate(v: &Vec<char>) -> (r: Option<Vec<char>>)
    ensures
        match r {
            Some(w) => spec_1252_candidate(v@) == Some(w@),
            None => spec_1252_candidate(v@) is None,
        },
{
    let mut bytes: Vec<u8> = Vec::new();
    let mut i: usize = 0;
    while i < v.len()
        invariant
            i <= v.len(),
            bytes@.len() == i,
            forall|q: int| 0 <= q < i ==> spec_cp1252_byte_of_char(#[trigger] v@[q]) is Some,
            forall|q: int| 0 <= q < i ==> bytes@[q] == spec_byte_1252_total(v@[q]),
        decreases v.len() - i,
    {
        match cp1252_byte_of_char(v[i]) {
            Some(b) => {
                bytes.push(b);
                i = i + 1;
            },
            None => {
                proof {
                    assert(!spec_all_1252(v@));
                }
                return None;
            },
        }
    }
    proof {
        assert(spec_all_1252(v@));
        assert(bytes@ =~= spec_1252_bytes(v@));
    }
    match utf8_to_string(bytes) {
        Some(st) => {
            let w = str_to_chars(st.as_str());
            Some(w)
        },
        None => None,
    }
}

/// One scored re-decoding step on the buffer.
fn enc_step(c: &TextFixerConfig, v: &Vec<char>) -> (r: Option<Vec<char>>)
    ensures
        match r {
            Some(w) => spec_enc_step(*c, v@) == Some(w@),
            None => spec_enc_step(*c, v@) is None,
        },
{
    if c.max_decode_length <= 0 {
        return None;
    }
    if v.len() > (c.max_decode_length as usize) {
        return None;
    }
    let cur = badness(v);
    let c1 = latin1_candidate(v);
    let c2 = cp1252_candidate(v);
    match (c1, c2) {
        (Some(a), Some(b)) => {
            let ba = badness(&a);
            let bb = badness(&b);
            if ba < cur && ba <= bb {
                Some(a)
            } else if bb < cur && bb < ba {
                Some(b)
            } else {
                None
            }
        },
        (Some(a), None) => {
            let ba = badness(&a);
            if ba < cur {
                Some(a)
            } else {
                None
            }
        },
        (None, Some(b)) => {
            let bb = badness(&b);
            if bb < cur {
                Some(b)
            } else {
                None
            }
        },
        (None, None) => None,
    }
}

/// The scored fixed-point re-decoding loop; returns the repaired text and
/// how many improving steps were taken.
pub fn fix_encoding_loop(c: &TextFixerConfig, v: Vec<char>) -> (r: (Vec<char>, usize))
    ensures
        r.0@ == spec_enc_fix(*c, v@, MAX_ENCODING_PASSES as nat).0,
        r.1 as nat == spec_enc_fix(*c, v@, MAX_ENCODING_PASSES as nat).1,
{
    let mut cur = v;
    let mut count: usize = 0;
    let mut fuel: usize = MAX_ENCODING_PASSES;
    let mut done = false;
    let ghost orig = cur@;
    while fuel > 0 && !done
        invariant
            fuel <= MAX_ENCODING_PASSES,
            count == MAX_ENCODING_PASSES - fuel,
            spec_enc_fix(*c, orig, MAX_ENCODING_PASSES as nat).0 == spec_enc_fix(
                *c,
                cur@,
                fuel as nat,
            ).0,
            spec_enc_fix(*c, orig, MAX_ENCODING_PASSES as nat).1 == count + spec_enc_fix(
                *c,
                cur@,
                fuel as nat,
            ).1,
            done ==> spec_enc_step(*c, cur@) is None,
        decreases fuel + (if done {
            0int
        } else {
            1int
        }),
    {
        match enc_step(c, &cur) {
            None => {
                done = true;
            },
            Some(t) => {
                cur = t;
                count = count + 1;
                fuel = fuel - 1;
            },
        }
    }
    (cur, count)
}

} // verus!
