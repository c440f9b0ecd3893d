//! The inconsistent-UTF-8 stage: text where only some spans were
//! mis-decoded. Each maximal run of characters with high Windows-1252
//! bytes is re-encoded to those bytes; when the bytes form valid UTF-8,
//! the run is replaced by their decoding, otherwise it stays as it is.

use crate::classify::{cp1252_byte_of_char, is_high_1252, spec_cp1252_byte_of_char,
    spec_is_high_1252};
use crate::textbuf::{append_chars, push_range, str_to_chars, utf8_to_string};
use vstd::prelude::*;
use vstd::utf8::{decode_utf8, valid_utf8};

verus! {

/// The Windows-1252 byte of a character, zero when it has none. Only ever
/// applied to characters that do have one.
pub open spec fn spec_byte_1252_total(c: char) -> u8 {
    match spec_cp1252_byte_of_char(c) {
        Some(b) => b,
        None => 0,
    }
}

fn byte_1252_total(c: char) -> (r: u8)
    ensures
        r == spec_byte_1252_total(c),
{
    match cp1252_byte_of_char(c) {
        Some(b) => b,
        None => 0,
    }
}

/// How many consecutive high-byte characters stand at index `j` and after.
pub open spec fn spec_high_run(s: Seq<char>, j: int) -> int
    decreases s.len() - j,
{
    if j < 0 || j >= s.len() || !spec_is_high_1252(s[j]) {
        0
    } else {
        1 + spec_high_run(s, j + 1)
    }
}

pub proof fn lemma_high_run_bounds(s: Seq<char>, j: int)
    requires
        0 <= j <= s.len(),
    ensures
        0 <= spec_high_run(s, j) <= s.len() - j,
    decreases s.len() - j,
{
    if j < s.len() && spec_is_high_1252(s[j]) {
        lemma_high_run_bounds(s, j + 1);
    }
}

/// The Windows-1252 bytes of `s[0..k]`.
pub open spec fn spec_run_bytes(s: Seq<char>, k: int) -> Seq<u8> {
    Seq::new(k as nat, |m: int| spec_byte_1252_total(s[m]))
}

/// Runs of high-byte characters re-decoded as UTF-8 where that succeeds.
pub open spec fn spec_decode_inconsistent_utf8(s: Seq<char>) -> Seq<char>
    decreases s.len(),
    via spec_decode_inconsistent_utf8_decreases
{
    if s.len() == 0 {
        Seq::empty()
    } else if !spec_is_high_1252(s[0]) {
        seq![s[0]] + spec_decode_inconsistent_utf8(s.skip(1))
    } else {
        let k = spec_high_run(s, 0);
        let bs = spec_run_bytes(s, k);
        if k >= 2 && valid_utf8(bs) {
            decode_utf8(bs) + spec_decode_inconsistent_utf8(s.skip(k))
        } else {
            s.subrange(0, k) + spec_decode_inconsistent_utf8(s.skip(k))
        }
    }
}

#[via_fn]
proof fn spec_decode_inconsistent_utf8_decreases(s: Seq<char>) {
    if s.len() != 0 && spec_is_high_1252(s[0]) {
        lemma_high_run_bounds(s, 0);
        lemma_high_run_bounds(s, 1);
        assert(spec_high_run(s, 0) == 1 + spec_high_run(s, 1));
    }
}

/// Embedded mis-decoded UTF-8 spans repaired in place.
pub fn stage_decode_inconsistent_utf8(v: &Vec<char>) -> (r: Vec<char>)
    ensures
        r@ == spec_decode_inconsistent_utf8(v@),
{
    let mut out: Vec<char> = Vec::new();
    let mut i: usize = 0;
    proof {
        assert(v@.skip(0) =~= v@);
        assert(out@ + spec_decode_inconsistent_utf8(v@) =~= spec_decode_inconsistent_utf8(v@));
    }
    while i < v.len()
        invariant
            i <= v.len(),
            spec_decode_inconsistent_utf8(v@) == out@ + spec_decode_inconsistent_utf8(
                v@.skip(i as int),
            ),
        decreases v.len() - i,
    {
        let ghost prev = out@;
        let ghost t = v@.skip(i as int);
        proof {
            assert(forall|m: int| 0 <= m < t.len() ==> t[m] == v@[i + m]);
        }
        let c = v[i];
        if !is_high_1252(c) {
            out.push(c);
            proof {
                assert(t.skip(1) =~= v@.skip(i as int + 1));
                assert(out@ =~= prev + seq![t[0]]);
                crate::stages::lemma_seq_assoc(
                    prev,
                    seq![t[0]],
                    spec_decode_inconsistent_utf8(v@.skip(i as int + 1)),
                );
            }
            i = i + 1;
        } else {
            // measure the run of high-byte characters
            let n = v.len();
            let mut j: usize = i;
            while j < n && is_high_1252(v[j])
                invariant
                    i <= j <= n,
                    n == v@.len(),
                    i < v@.len(),
                    t == v@.skip(i as int),
                    spec_high_run(t, 0) == (j - i) + spec_high_run(t, j - i as int),
                decreases n - j,
            {
                proof {
                    assert(t[j - i as int] == v@[j as int]);
                }
                j = j + 1;
            }
            proof {
                if j < n {
                    assert(t[j - i as int] == v@[j as int]);
                }
                assert(spec_high_run(t, j - i as int) == 0);
            }
            let k = j - i;
            let ghost bs = spec_run_bytes(t, k as int);
            let ghost rest = spec_decode_inconsistent_utf8(v@.skip(j as int));
            proof {
                assert(t.skip(k as int) =~= v@.skip(j as int));
            }
            if k >= 2 {
                // collect the bytes of the run
                let mut bytes: Vec<u8> = Vec::new();
                let mut m: usize = 0;
                while m < k
                    invariant
                        m <= k,
                        n == v@.len(),
                        i + k <= n,
                        t == v@.skip(i as int),
                        bytes@.len() == m,
                        forall|q: int|
                            0 <= q < m ==> bytes@[q] == spec_byte_1252_total(v@[i + q]),
                    decreases k - m,
                {
                    proof {
                        assert(i + m < v@.len());
                    }
                    bytes.push(byte_1252_total(v[i + m]));
                    m = m + 1;
                }
                proof {
                    assert(bytes@ =~= bs);
                }
                match utf8_to_string(bytes) {
                    Some(st) => {
                        let decoded = str_to_chars(st.as_str());
                        append_chars(&mut out, &decoded);
                        proof {
                            assert(out@ =~= prev + decode_utf8(bs));
                            crate::stages::lemma_seq_assoc(prev, decode_utf8(bs), rest);
                        }
                    },
                    None => {
                        push_range(&mut out, v, i, j);
                        proof {
                            assert(v@.subrange(i as int, j as int) =~= t.subrange(0, k as int));
                            assert(out@ =~= prev + t.subrange(0, k as int));
                            crate::stages::lemma_seq_assoc(prev, t.subrange(0, k as int), rest);
                        }
                    },
                }
            } else {
                out.push(c);
                proof {
                    assert(t.subrange(0, 1) =~= seq![t[0]]);
                    assert(out@ =~= prev + t.subrange(0, k as int));
                    crate::stages::lemma_seq_assoc(prev, t.subrange(0, k as int), rest);
                }
            }
            i = j;
        }
    }
    proof {
        assert(v@.skip(v@.len() as int) =~= Seq::<char>::empty());
        assert(out@ + spec_decode_inconsistent_utf8(Seq::empty()) =~= out@);
    }
    out
}

} // verus!
