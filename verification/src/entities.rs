//! The HTML-unescape stage: a small, fixed grammar of character
//! references. The named references for the characters HTML cannot leave
//! bare, plus decimal numeric references, are rewritten; anything else is
//! copied through untouched.

use crate::textbuf::char_from_u32;
use vstd::prelude::*;
use vstd::utf8::is_scalar;

verus! {

pub open spec fn pow10(k: int) -> int
    decreases k,
{
    if k <= 0 {
        1
    } else {
        10 * pow10(k - 1)
    }
}

proof fn lemma_pow10_7()
    ensures
        pow10(7) == 10000000,
{
    assert(pow10(0) == 1);
    assert(pow10(1) == 10);
    assert(pow10(2) == 100);
    assert(pow10(3) == 1000);
    assert(pow10(4) == 10000);
    assert(pow10(5) == 100000);
    assert(pow10(6) == 1000000);
}

proof fn lemma_pow10_le(a: int, b: int)
    requires
        a <= b,
    ensures
        pow10(a) <= pow10(b),
    decreases b - a,
{
    if a < b && b > 0 {
        lemma_pow10_le(a, b - 1);
        assert(pow10(b) == 10 * pow10(b - 1));
        lemma_pow10_pos(b - 1);
    }
}

proof fn lemma_pow10_pos(k: int)
    ensures
        pow10(k) >= 1,
    decreases k,
{
    if k > 0 {
        lemma_pow10_pos(k - 1);
    }
}

pub open spec fn spec_is_digit(c: char) -> bool {
    0x30 <= c as u32 && c as u32 <= 0x39
}

/// How many decimal digits stand at index `j` and after.
pub open spec fn spec_dec_run(s: Seq<char>, j: int) -> int
    decreases s.len() - j,
{
    if j < 0 || j >= s.len() || !spec_is_digit(s[j]) {
        0
    } else {
        1 + spec_dec_run(s, j + 1)
    }
}

pub proof fn lemma_dec_run_bounds(s: Seq<char>, j: int)
    requires
        0 <= j <= s.len(),
    ensures
        0 <= spec_dec_run(s, j) <= s.len() - j,
    decreases s.len() - j,
{
    if j < s.len() && spec_is_digit(s[j]) {
        lemma_dec_run_bounds(s, j + 1);
    }
}

/// The value of the `k` digits starting at index `j`.
pub open spec fn spec_dec_val(s: Seq<char>, j: int, k: int) -> int
    decreases k,
{
    if k <= 0 {
        0
    } else {
        spec_dec_val(s, j, k - 1) * 10 + (s[j + k - 1] as u32 - 0x30)
    }
}

/// The character reference starting at `s[0]` (which must be `&`): the
/// character it denotes and how many input characters it spans, or `None`
/// when no recognized reference starts here.
pub open spec fn spec_entity_at(s: Seq<char>) -> Option<(char, int)> {
    if s.len() >= 5 && s[1] == 'a' && s[2] == 'm' && s[3] == 'p' && s[4] == ';' {
        Some(('&', 5))
    } else if s.len() >= 4 && s[1] == 'l' && s[2] == 't' && s[3] == ';' {
        Some(('<', 4))
    } else if s.len() >= 4 && s[1] == 'g' && s[2] == 't' && s[3] == ';' {
        Some(('>', 4))
    } else if s.len() >= 6 && s[1] == 'q' && s[2] == 'u' && s[3] == 'o' && s[4] == 't' && s[5]
        == ';' {
        Some(('"', 6))
    } else if s.len() >= 6 && s[1] == 'a' && s[2] == 'p' && s[3] == 'o' && s[4] == 's' && s[5]
        == ';' {
        Some(('\'', 6))
    } else if s.len() >= 6 && s[1] == 'n' && s[2] == 'b' && s[3] == 's' && s[4] == 'p' && s[5]
        == ';' {
        Some(('\u{A0}', 6))
    } else if s.len() >= 2 && s[1] == '#' {
        let k = spec_dec_run(s, 2);
        if 1 <= k && k <= 7 && 2 + k < s.len() && s[2 + k] == ';' {
            let val = spec_dec_val(s, 2, k);
            if is_scalar(val as u32) {
                Some(((val as u32) as char, k + 3))
            } else {
                None
            }
        } else {
            None
        }
    } else {
        None
    }
}

pub proof fn lemma_entity_at_bounds(s: Seq<char>)
    requires
        spec_entity_at(s) is Some,
    ensures
        4 <= (spec_entity_at(s)->0).1 <= s.len(),
{
    if !(s.len() >= 5 && s[1] == 'a' && s[2] == 'm' && s[3] == 'p' && s[4] == ';') && !(s.len()
        >= 4 && s[1] == 'l' && s[2] == 't' && s[3] == ';') && !(s.len() >= 4 && s[1] == 'g' && s[2]
        == 't' && s[3] == ';') && !(s.len() >= 6 && s[1] == 'q' && s[2] == 'u' && s[3] == 'o'
        && s[4] == 't' && s[5] == ';') && !(s.len() >= 6 && s[1] == 'a' && s[2] == 'p' && s[3]
        == 'o' && s[4] == 's' && s[5] == ';') && !(s.len() >= 6 && s[1] == 'n' && s[2] == 'b'
        && s[3] == 's' && s[4] == 'p' && s[5] == ';') {
        lemma_dec_run_bounds(s, 2);
    }
}

/// No recognized character reference starts anywhere in the text.
pub open spec fn spec_no_entities(s: Seq<char>) -> bool {
    forall|i: int|
        0 <= i < s.len() && s[i] == '&' ==> !(spec_entity_at(#[trigger] s.skip(i)) is Some)
}

/// Recognized character references replaced by the characters they
/// denote; an ampersand that starts no recognized reference stays.
pub open spec fn spec_unescape_html(s: Seq<char>) -> Seq<char>
    decreases s.len(),
    via spec_unescape_html_decreases
{
    if s.len() == 0 {
        Seq::empty()
    } else if s[0] == '&' && spec_entity_at(s) is Some {
        let (c, k) = spec_entity_at(s)->0;
        seq![c] + spec_unescape_html(s.skip(k))
    } else {
        seq![s[0]] + spec_unescape_html(s.skip(1))
    }
}

#[via_fn]
proof fn spec_unescape_html_decreases(s: Seq<char>) {
    if s.len() != 0 && s[0] == '&' && spec_entity_at(s) is Some {
        lemma_entity_at_bounds(s);
    }
}

/// The character reference starting at position `i`, which must hold `&`.
fn entity_at(v: &Vec<char>, i: usize) -> (r: Option<(char, usize)>)
    requires
        i < v@.len(),
        v@[i as int] == '&',
    ensures
        ({
            let t = v@.skip(i as int);
            match r {
                Some(p) => spec_entity_at(t) == Some((p.0, p.1 as int)) && 4 <= p.1 && i + p.1
                    <= v@.len(),
                None => spec_entity_at(t) is None,
            }
        }),
{
    let ghost t = v@.skip(i as int);
    proof {
        assert(forall|m: int| 0 <= m < t.len() ==> t[m] == v@[i + m]);
    }
    let n = v.len();
    if n - i > 4 && v[i + 1] == 'a' && v[i + 2] == 'm' && v[i + 3] == 'p' && v[i + 4] == ';' {
        return Some(('&', 5));
    }
    if n - i > 3 && v[i + 1] == 'l' && v[i + 2] == 't' && v[i + 3] == ';' {
        return Some(('<', 4));
    }
    if n - i > 3 && v[i + 1] == 'g' && v[i + 2] == 't' && v[i + 3] == ';' {
        return Some(('>', 4));
    }
    if n - i > 5 && v[i + 1] == 'q' && v[i + 2] == 'u' && v[i + 3] == 'o' && v[i + 4] == 't' && v[i
        + 5] == ';' {
        return Some(('"', 6));
    }
    if n - i > 5 && v[i + 1] == 'a' && v[i + 2] == 'p' && v[i + 3] == 'o' && v[i + 4] == 's' && v[i
        + 5] == ';' {
        return Some(('\'', 6));
    }
    if n - i > 5 && v[i + 1] == 'n' && v[i + 2] == 'b' && v[i + 3] == 's' && v[i + 4] == 'p' && v[i
        + 5] == ';' {
        return Some(('\u{A0}', 6));
    }
    if n - i > 1 && v[i + 1] == '#' {
        // measure the digit run
        let mut j: usize = i + 2;
        while j < n && 0x30 <= (v[j] as u32) && (v[j] as u32) <= 0x39
            invariant
                i + 2 <= j <= n,
                n == v@.len(),
                i < v@.len(),
                t == v@.skip(i as int),
                spec_dec_run(t, 2) == (j - i - 2) + spec_dec_run(t, j - i as int),
                forall|m: int| i + 2 <= m < j ==> spec_is_digit(#[trigger] v@[m]),
            decreases n - j,
        {
            proof {
                assert(t[j - i as int] == v@[j as int]);
            }
            j = j + 1;
        }
        proof {
            if j < n {
                assert(t[j - i as int] == v@[j as int]);
            }
            assert(spec_dec_run(t, j - i as int) == 0);
        }
        let k = j - (i + 2);
        if 1 <= k && k <= 7 && j < n && v[j] == ';' {
            // evaluate the digits
            let mut val: u64 = 0;
            let mut m: usize = 0;
            proof {
                lemma_pow10_7();
            }
            while m < k
                invariant
                    0 <= m <= k,
                    k <= 7,
                    i + 2 + k <= n,
                    n == v@.len(),
                    t == v@.skip(i as int),
                    forall|q: int| i + 2 <= q < i + 2 + k ==> spec_is_digit(#[trigger] v@[q]),
                    val as int == spec_dec_val(t, 2, m as int),
                    (val as int) < pow10(m as int),
                    pow10(7) == 10000000,
                decreases k - m,
            {
                let d = v[i + 2 + m] as u32;
                proof {
                    assert(t[2 + m as int] == v@[i + 2 + m as int]);
                    assert(spec_is_digit(v@[i + 2 + m as int]));
                    lemma_pow10_le(m as int, 7);
                    lemma_pow10_le(m as int + 1, 7);
                }
                val = val * 10 + (d - 0x30) as u64;
                m = m + 1;
            }
            proof {
                lemma_pow10_le(k as int, 7);
            }
            let w = val as u32;
            proof {
                assert(w as int == spec_dec_val(t, 2, k as int));
            }
            match char_from_u32(w) {
                Some(c) => {
                    return Some((c, k + 3));
                },
                None => {
                    return None;
                },
            }
        } else {
            return None;
        }
    }
    None
}

/// Recognized character references replaced by their characters.
pub fn stage_unescape_html(v: &Vec<char>) -> (r: Vec<char>)
    ensures
        r@ == spec_unescape_html(v@),
{
    let mut out: Vec<char> = Vec::new();
    let mut i: usize = 0;
    proof {
        assert(v@.skip(0) =~= v@);
        assert(out@ + spec_unescape_html(v@) =~= spec_unescape_html(v@));
    }
    while i < v.len()
        invariant
            i <= v.len(),
            spec_unescape_html(v@) == out@ + spec_unescape_html(v@.skip(i as int)),
        decreases v.len() - i,
    {
        let ghost prev = out@;
        let ghost t = v@.skip(i as int);
        let c = v[i];
        proof {
            assert(t[0] == v@[i as int]);
        }
        if c == '&' {
            match entity_at(v, i) {
                Some(p) => {
                    out.push(p.0);
                    proof {
                        assert(t.skip(p.1 as int) =~= v@.skip(i as int + p.1 as int));
                        assert(out@ =~= prev + seq![p.0]);
                        crate::stages::lemma_seq_assoc(
                            prev,
                            seq![p.0],
                            spec_unescape_html(v@.skip(i as int + p.1 as int)),
                        );
                    }
                    i = i + p.1;
                },
                None => {
                    out.push(c);
                    proof {
                        assert(t.skip(1) =~= v@.skip(i as int + 1));
                        assert(out@ =~= prev + seq![t[0]]);
                        crate::stages::lemma_seq_assoc(
                            prev,
                            seq![t[0]],
                            spec_unescape_html(v@.skip(i as int + 1)),
                        );
                    }
                    i = i + 1;
                },
            }
        } else {
            out.push(c);
            proof {
                assert(t.skip(1) =~= v@.skip(i as int + 1));
                assert(out@ =~= prev + seq![t[0]]);
                crate::stages::lemma_seq_assoc(
                    prev,
                    seq![t[0]],
                    spec_unescape_html(v@.skip(i as int + 1)),
                );
            }
            i = i + 1;
        }
    }
    proof {
        assert(v@.skip(v@.len() as int) =~= Seq::<char>::empty());
        assert(out@ + spec_unescape_html(Seq::empty()) =~= out@);
    }
    out
}

} // verus!
