//! The character-level repair stages. Each stage is a pure function from
//! text to text, specified by a recursive spec function over the character
//! sequence; each only ever makes a local substitution.

use crate::classify::{
    c1_char, is_mojibake_lead, is_removed_control, push_lig_expansion, spec_c1_char,
    spec_is_mojibake_lead, spec_is_removed_control, spec_is_printable_ascii_char,
    spec_printable_ascii,
    spec_lig_expansion, spec_uncurl_char, spec_width_char, uncurl_char, width_char,
};
use vstd::prelude::*;

verus! {

/// Concatenation of character sequences is associative.
pub proof fn lemma_seq_assoc(a: Seq<char>, b: Seq<char>, c: Seq<char>)
    ensures
        (a + b) + c == a + (b + c),
{
    assert((a + b) + c =~= a + (b + c));
}

/// A suffix of printable ASCII is printable ASCII.
pub proof fn lemma_printable_skip(s: Seq<char>, k: int)
    requires
        spec_printable_ascii(s),
        0 <= k <= s.len(),
    ensures
        spec_printable_ascii(s.skip(k)),
{
    assert forall|i: int| 0 <= i < s.skip(k).len() implies spec_is_printable_ascii_char(
        #[trigger] s.skip(k)[i],
    ) by {
        assert(s.skip(k)[i] == s[k + i]);
    }
}

/// Curly quotes replaced by their straight ASCII equivalents.
pub open spec fn spec_uncurl_quotes(s: Seq<char>) -> Seq<char>
    decreases s.len(),
{
    if s.len() == 0 {
        Seq::empty()
    } else {
        seq![spec_uncurl_char(s[0])] + spec_uncurl_quotes(s.skip(1))
    }
}

/// Lone C1 controls reinterpreted as Windows-1252 characters.
pub open spec fn spec_fix_c1_controls(s: Seq<char>) -> Seq<char>
    decreases s.len(),
{
    if s.len() == 0 {
        Seq::empty()
    } else {
        seq![spec_c1_char(s[0])] + spec_fix_c1_controls(s.skip(1))
    }
}

/// Full-width forms replaced by their ASCII equivalents.
pub open spec fn spec_fix_character_width(s: Seq<char>) -> Seq<char>
    decreases s.len(),
{
    if s.len() == 0 {
        Seq::empty()
    } else {
        seq![spec_width_char(s[0])] + spec_fix_character_width(s.skip(1))
    }
}

/// Latin ligature codepoints expanded to their component letters.
pub open spec fn spec_fix_latin_ligatures(s: Seq<char>) -> Seq<char>
    decreases s.len(),
{
    if s.len() == 0 {
        Seq::empty()
    } else {
        spec_lig_expansion(s[0]) + spec_fix_latin_ligatures(s.skip(1))
    }
}

/// CRLF, lone CR, NEL and the Unicode line/paragraph separators all
/// normalized to a single line feed.
pub open spec fn spec_fix_line_breaks(s: Seq<char>) -> Seq<char>
    decreases s.len(),
{
    if s.len() == 0 {
        Seq::empty()
    } else if s[0] == '\r' && s.len() >= 2 && s[1] == '\n' {
        seq!['\n'] + spec_fix_line_breaks(s.skip(2))
    } else if s[0] == '\r' || s[0] == '\u{85}' || s[0] == '\u{2028}' || s[0] == '\u{2029}' {
        seq!['\n'] + spec_fix_line_breaks(s.skip(1))
    } else {
        seq![s[0]] + spec_fix_line_breaks(s.skip(1))
    }
}

/// Ignorable control characters dropped; tab, line feed and carriage
/// return survive.
pub open spec fn spec_remove_control_chars(s: Seq<char>) -> Seq<char>
    decreases s.len(),
{
    if s.len() == 0 {
        Seq::empty()
    } else if spec_is_removed_control(s[0]) {
        spec_remove_control_chars(s.skip(1))
    } else {
        seq![s[0]] + spec_remove_control_chars(s.skip(1))
    }
}

/// A space following a mis-decoded UTF-8 leading byte put back to the
/// no-break space it almost certainly was before a prior conversion.
pub open spec fn spec_restore_byte_a0(s: Seq<char>) -> Seq<char>
    decreases s.len(),
{
    if s.len() == 0 {
        Seq::empty()
    } else if s.len() >= 2 && spec_is_mojibake_lead(s[0]) && s[1] == ' ' {
        seq![s[0], '\u{A0}'] + spec_restore_byte_a0(s.skip(2))
    } else {
        seq![s[0]] + spec_restore_byte_a0(s.skip(1))
    }
}

/// A mis-decoded UTF-8 leading byte followed by a replacement character
/// collapsed to a single replacement character: the sequence was already
/// lossy and cannot be re-decoded.
pub open spec fn spec_replace_lossy_sequences(s: Seq<char>) -> Seq<char>
    decreases s.len(),
{
    if s.len() == 0 {
        Seq::empty()
    } else if s.len() >= 2 && spec_is_mojibake_lead(s[0]) && s[1] == '\u{FFFD}' {
        seq!['\u{FFFD}'] + spec_replace_lossy_sequences(s.skip(2))
    } else {
        seq![s[0]] + spec_replace_lossy_sequences(s.skip(1))
    }
}

/// Where a CSI escape sequence starting at index 2 of `s` ends (one past
/// its final byte), if it is complete.
pub open spec fn spec_csi_end(s: Seq<char>, j: int) -> Option<int>
    decreases s.len() - j,
{
    if j < 0 || j >= s.len() {
        None
    } else if 0x40 <= s[j] as u32 && s[j] as u32 <= 0x7E {
        Some(j + 1)
    } else if 0x20 <= s[j] as u32 && s[j] as u32 <= 0x3F {
        spec_csi_end(s, j + 1)
    } else {
        None
    }
}

/// The end index of a CSI sequence lies past where the scan began.
pub proof fn lemma_csi_end_bounds(s: Seq<char>, j: int)
    requires
        spec_csi_end(s, j) is Some,
    ensures
        j < spec_csi_end(s, j)->0 <= s.len(),
    decreases s.len() - j,
{
    if 0 <= j < s.len() && !(0x40 <= s[j] as u32 && s[j] as u32 <= 0x7E) {
        lemma_csi_end_bounds(s, j + 1);
    }
}

/// ANSI terminal escape sequences (ESC `[` ... final byte) removed; a
/// truncated sequence is left alone.
pub open spec fn spec_remove_terminal_escapes(s: Seq<char>) -> Seq<char>
    decreases s.len(),
    via spec_remove_terminal_escapes_decreases
{
    if s.len() == 0 {
        Seq::empty()
    } else if s[0] == '\u{1B}' && s.len() >= 2 && s[1] == '[' && spec_csi_end(s, 2) is Some {
        spec_remove_terminal_escapes(s.skip(spec_csi_end(s, 2)->0))
    } else {
        seq![s[0]] + spec_remove_terminal_escapes(s.skip(1))
    }
}

#[via_fn]
proof fn spec_remove_terminal_escapes_decreases(s: Seq<char>) {
    if s.len() != 0 && s[0] == '\u{1B}' && s.len() >= 2 && s[1] == '[' && spec_csi_end(s, 2)
        is Some {
        lemma_csi_end_bounds(s, 2);
    }
}

/// Curly quotes replaced by straight ASCII quotes.
pub fn stage_uncurl_quotes(v: &Vec<char>) -> (r: Vec<char>)
    ensures
        r@ == spec_uncurl_quotes(v@),
{
    let mut out: Vec<char> = Vec::new();
    let mut i: usize = 0;
    proof {
        assert(v@.skip(0) =~= v@);
        assert(out@ + spec_uncurl_quotes(v@) =~= spec_uncurl_quotes(v@));
    }
    while i < v.len()
        invariant
            i <= v.len(),
            spec_uncurl_quotes(v@) == out@ + spec_uncurl_quotes(v@.skip(i as int)),
        decreases v.len() - i,
    {
        let ghost prev = out@;
        let ghost t = v@.skip(i as int);
        out.push(uncurl_char(v[i]));
        proof {
            assert(t[0] == v@[i as int]);
            assert(t.skip(1) =~= v@.skip(i as int + 1));
            assert(out@ =~= prev + seq![spec_uncurl_char(t[0])]);
            lemma_seq_assoc(
                prev,
                seq![spec_uncurl_char(t[0])],
                spec_uncurl_quotes(v@.skip(i as int + 1)),
            );
        }
        i = i + 1;
    }
    proof {
        assert(v@.skip(v@.len() as int) =~= Seq::<char>::empty());
        assert(out@ + spec_uncurl_quotes(Seq::empty()) =~= out@);
    }
    out
}

/// Lone C1 controls reinterpreted as Windows-1252 characters.
pub fn stage_fix_c1_controls(v: &Vec<char>) -> (r: Vec<char>)
    ensures
        r@ == spec_fix_c1_controls(v@),
{
    let mut out: Vec<char> = Vec::new();
    let mut i: usize = 0;
    proof {
        assert(v@.skip(0) =~= v@);
        assert(out@ + spec_fix_c1_controls(v@) =~= spec_fix_c1_controls(v@));
    }
    while i < v.len()
        invariant
            i <= v.len(),
            spec_fix_c1_controls(v@) == out@ + spec_fix_c1_controls(v@.skip(i as int)),
        decreases v.len() - i,
    {
        let ghost prev = out@;
        let ghost t = v@.skip(i as int);
        out.push(c1_char(v[i]));
        proof {
            assert(t[0] == v@[i as int]);
            assert(t.skip(1) =~= v@.skip(i as int + 1));
            assert(out@ =~= prev + seq![spec_c1_char(t[0])]);
            lemma_seq_assoc(
                prev,
                seq![spec_c1_char(t[0])],
                spec_fix_c1_controls(v@.skip(i as int + 1)),
            );
        }
        i = i + 1;
    }
    proof {
        assert(v@.skip(v@.len() as int) =~= Seq::<char>::empty());
        assert(out@ + spec_fix_c1_controls(Seq::empty()) =~= out@);
    }
    out
}

/// Full-width forms replaced by ASCII.
pub fn stage_fix_character_width(v: &Vec<char>) -> (r: Vec<char>)
    ensures
        r@ == spec_fix_character_width(v@),
{
    let mut out: Vec<char> = Vec::new();
    let mut i: usize = 0;
    proof {
        assert(v@.skip(0) =~= v@);
        assert(out@ + spec_fix_character_width(v@) =~= spec_fix_character_width(v@));
    }
    while i < v.len()
        invariant
            i <= v.len(),
            spec_fix_character_width(v@) == out@ + spec_fix_character_width(v@.skip(i as int)),
        decreases v.len() - i,
    {
        let ghost prev = out@;
        let ghost t = v@.skip(i as int);
        out.push(width_char(v[i]));
        proof {
            assert(t[0] == v@[i as int]);
            assert(t.skip(1) =~= v@.skip(i as int + 1));
            assert(out@ =~= prev + seq![spec_width_char(t[0])]);
            lemma_seq_assoc(
                prev,
                seq![spec_width_char(t[0])],
                spec_fix_character_width(v@.skip(i as int + 1)),
            );
        }
        i = i + 1;
    }
    proof {
        assert(v@.skip(v@.len() as int) =~= Seq::<char>::empty());
        assert(out@ + spec_fix_character_width(Seq::empty()) =~= out@);
    }
    out
}

/// Ligatures expanded to their component letters.
pub fn stage_fix_latin_ligatures(v: &Vec<char>) -> (r: Vec<char>)
    ensures
        r@ == spec_fix_latin_ligatures(v@),
{
    let mut out: Vec<char> = Vec::new();
    let mut i: usize = 0;
    proof {
        assert(v@.skip(0) =~= v@);
        assert(out@ + spec_fix_latin_ligatures(v@) =~= spec_fix_latin_ligatures(v@));
    }
    while i < v.len()
        invariant
            i <= v.len(),
            spec_fix_latin_ligatures(v@) == out@ + spec_fix_latin_ligatures(v@.skip(i as int)),
        decreases v.len() - i,
    {
        let ghost prev = out@;
        let ghost t = v@.skip(i as int);
        push_lig_expansion(v[i], &mut out);
        proof {
            assert(t[0] == v@[i as int]);
            assert(t.skip(1) =~= v@.skip(i as int + 1));
            lemma_seq_assoc(
                prev,
                spec_lig_expansion(t[0]),
                spec_fix_latin_ligatures(v@.skip(i as int + 1)),
            );
        }
        i = i + 1;
    }
    proof {
        assert(v@.skip(v@.len() as int) =~= Seq::<char>::empty());
        assert(out@ + spec_fix_latin_ligatures(Seq::empty()) =~= out@);
    }
    out
}

/// Line-break variants normalized to line feeds.
pub fn stage_fix_line_breaks(v: &Vec<char>) -> (r: Vec<char>)
    ensures
        r@ == spec_fix_line_breaks(v@),
{
    let mut out: Vec<char> = Vec::new();
    let mut i: usize = 0;
    proof {
        assert(v@.skip(0) =~= v@);
        assert(out@ + spec_fix_line_breaks(v@) =~= spec_fix_line_breaks(v@));
    }
    while i < v.len()
        invariant
            i <= v.len(),
            spec_fix_line_breaks(v@) == out@ + spec_fix_line_breaks(v@.skip(i as int)),
        decreases v.len() - i,
    {
        let ghost prev = out@;
        let ghost t = v@.skip(i as int);
        let c = v[i];
        let mut step: usize = 1;
        if c == '\r' && i + 1 < v.len() && v[i + 1] == '\n' {
            out.push('\n');
            step = 2;
            proof {
                assert(t[0] == v@[i as int]);
                assert(t[1] == v@[i as int + 1]);
                assert(t.skip(2) =~= v@.skip(i as int + 2));
                assert(out@ =~= prev + seq!['\n']);
                lemma_seq_assoc(prev, seq!['\n'], spec_fix_line_breaks(v@.skip(i as int + 2)));
            }
        } else if c == '\r' || c == '\u{85}' || c == '\u{2028}' || c == '\u{2029}' {
            out.push('\n');
            proof {
                assert(t[0] == v@[i as int]);
                if t.len() >= 2 {
                    assert(t[1] == v@[i as int + 1]);
                }
                assert(t.skip(1) =~= v@.skip(i as int + 1));
                assert(out@ =~= prev + seq!['\n']);
                lemma_seq_assoc(prev, seq!['\n'], spec_fix_line_breaks(v@.skip(i as int + 1)));
            }
        } else {
            out.push(c);
            proof {
                assert(t[0] == v@[i as int]);
                assert(t.skip(1) =~= v@.skip(i as int + 1));
                assert(out@ =~= prev + seq![t[0]]);
                lemma_seq_assoc(prev, seq![t[0]], spec_fix_line_breaks(v@.skip(i as int + 1)));
            }
        }
        i = i + step;
    }
    proof {
        assert(v@.skip(v@.len() as int) =~= Seq::<char>::empty());
        assert(out@ + spec_fix_line_breaks(Seq::empty()) =~= out@);
    }
    out
}

/// Ignorable control characters removed.
pub fn stage_remove_control_chars(v: &Vec<char>) -> (r: Vec<char>)
    ensures
        r@ == spec_remove_control_chars(v@),
{
    let mut out: Vec<char> = Vec::new();
    let mut i: usize = 0;
    proof {
        assert(v@.skip(0) =~= v@);
        assert(out@ + spec_remove_control_chars(v@) =~= spec_remove_control_chars(v@));
    }
    while i < v.len()
        invariant
            i <= v.len(),
            spec_remove_control_chars(v@) == out@ + spec_remove_control_chars(v@.skip(i as int)),
        decreases v.len() - i,
    {
        let ghost prev = out@;
        let ghost t = v@.skip(i as int);
        let c = v[i];
        if is_removed_control(c) {
            proof {
                assert(t[0] == v@[i as int]);
                assert(t.skip(1) =~= v@.skip(i as int + 1));
            }
        } else {
            out.push(c);
            proof {
                assert(t[0] == v@[i as int]);
                assert(t.skip(1) =~= v@.skip(i as int + 1));
                assert(out@ =~= prev + seq![t[0]]);
                lemma_seq_assoc(
                    prev,
                    seq![t[0]],
                    spec_remove_control_chars(v@.skip(i as int + 1)),
                );
            }
        }
        i = i + 1;
    }
    proof {
        assert(v@.skip(v@.len() as int) =~= Seq::<char>::empty());
        assert(out@ + spec_remove_control_chars(Seq::empty()) =~= out@);
    }
    out
}

/// Spaces after mis-decoded leading bytes restored to no-break spaces.
pub fn stage_restore_byte_a0(v: &Vec<char>) -> (r: Vec<char>)
    ensures
        r@ == spec_restore_byte_a0(v@),
{
    let mut out: Vec<char> = Vec::new();
    let mut i: usize = 0;
    proof {
        assert(v@.skip(0) =~= v@);
        assert(out@ + spec_restore_byte_a0(v@) =~= spec_restore_byte_a0(v@));
    }
    while i < v.len()
        invariant
            i <= v.len(),
            spec_restore_byte_a0(v@) == out@ + spec_restore_byte_a0(v@.skip(i as int)),
        decreases v.len() - i,
    {
        let ghost prev = out@;
        let ghost t = v@.skip(i as int);
        let c = v[i];
        let mut step: usize = 1;
        if i + 1 < v.len() && is_mojibake_lead(c) && v[i + 1] == ' ' {
            out.push(c);
            out.push('\u{A0}');
            step = 2;
            proof {
                assert(t[0] == v@[i as int]);
                assert(t[1] == v@[i as int + 1]);
                assert(t.skip(2) =~= v@.skip(i as int + 2));
                assert(out@ =~= prev + seq![t[0], '\u{A0}']);
                lemma_seq_assoc(
                    prev,
                    seq![t[0], '\u{A0}'],
                    spec_restore_byte_a0(v@.skip(i as int + 2)),
                );
            }
        } else {
            out.push(c);
            proof {
                assert(t[0] == v@[i as int]);
                if t.len() >= 2 {
                    assert(t[1] == v@[i as int + 1]);
                }
                assert(t.skip(1) =~= v@.skip(i as int + 1));
                assert(out@ =~= prev + seq![t[0]]);
                lemma_seq_assoc(prev, seq![t[0]], spec_restore_byte_a0(v@.skip(i as int + 1)));
            }
        }
        i = i + step;
    }
    proof {
        assert(v@.skip(v@.len() as int) =~= Seq::<char>::empty());
        assert(out@ + spec_restore_byte_a0(Seq::empty()) =~= out@);
    }
    out
}

/// Already-lossy mojibake collapsed to a single replacement character.
pub fn stage_replace_lossy_sequences(v: &Vec<char>) -> (r: Vec<char>)
    ensures
        r@ == spec_replace_lossy_sequences(v@),
{
    let mut out: Vec<char> = Vec::new();
    let mut i: usize = 0;
    proof {
        assert(v@.skip(0) =~= v@);
        assert(out@ + spec_replace_lossy_sequences(v@) =~= spec_replace_lossy_sequences(v@));
    }
    while i < v.len()
        invariant
            i <= v.len(),
            spec_replace_lossy_sequences(v@) == out@ + spec_replace_lossy_sequences(
                v@.skip(i as int),
            ),
        decreases v.len() - i,
    {
        let ghost prev = out@;
        let ghost t = v@.skip(i as int);
        let c = v[i];
        let mut step: usize = 1;
        if i + 1 < v.len() && is_mojibake_lead(c) && v[i + 1] == '\u{FFFD}' {
            out.push('\u{FFFD}');
            step = 2;
            proof {
                assert(t[0] == v@[i as int]);
                assert(t[1] == v@[i as int + 1]);
                assert(t.skip(2) =~= v@.skip(i as int + 2));
                assert(out@ =~= prev + seq!['\u{FFFD}']);
                lemma_seq_assoc(
                    prev,
                    seq!['\u{FFFD}'],
                    spec_replace_lossy_sequences(v@.skip(i as int + 2)),
                );
            }
        } else {
            out.push(c);
            proof {
                assert(t[0] == v@[i as int]);
                if t.len() >= 2 {
                    assert(t[1] == v@[i as int + 1]);
                }
                assert(t.skip(1) =~= v@.skip(i as int + 1));
                assert(out@ =~= prev + seq![t[0]]);
                lemma_seq_assoc(
                    prev,
                    seq![t[0]],
                    spec_replace_lossy_sequences(v@.skip(i as int + 1)),
                );
            }
        }
        i = i + step;
    }
    proof {
        assert(v@.skip(v@.len() as int) =~= Seq::<char>::empty());
        assert(out@ + spec_replace_lossy_sequences(Seq::empty()) =~= out@);
    }
    out
}

/// ANSI terminal escape sequences removed.
pub fn stage_remove_terminal_escapes(v: &Vec<char>) -> (r: Vec<char>)
    ensures
        r@ == spec_remove_terminal_escapes(v@),
{
    let mut out: Vec<char> = Vec::new();
    let mut i: usize = 0;
    proof {
        assert(v@.skip(0) =~= v@);
        assert(out@ + spec_remove_terminal_escapes(v@) =~= spec_remove_terminal_escapes(v@));
    }
    while i < v.len()
        invariant
            i <= v.len(),
            spec_remove_terminal_escapes(v@) == out@ + spec_remove_terminal_escapes(
                v@.skip(i as int),
            ),
        decreases v.len() - i,
    {
        let ghost prev = out@;
        let ghost t = v@.skip(i as int);
        let c = v[i];
        proof {
            assert(t[0] == v@[i as int]);
            if t.len() >= 2 {
                assert(t[1] == v@[i as int + 1]);
            }
        }
        if c == '\u{1B}' && i + 1 < v.len() && v[i + 1] == '[' {
            // scan for the final byte of the escape sequence
            let mut j: usize = i + 2;
            let mut end: usize = 0;
            let mut found = false;
            while j < v.len()
                invariant_except_break
                    i + 2 <= j <= v.len(),
                    t == v@.skip(i as int),
                    i < v.len(),
                    !found,
                    spec_csi_end(t, 2) == spec_csi_end(t, j - i as int),
                    forall|m: int| 0 <= m < t.len() ==> t[m] == v@[i + m],
                ensures
                    found ==> i + 2 <= end <= v.len() && spec_csi_end(t, 2) == Some(
                        end - i as int,
                    ),
                    !found ==> spec_csi_end(t, 2) is None,
                decreases v.len() - j,
            {
                let d = v[j] as u32;
                proof {
                    assert(t[j - i as int] == v@[j as int]);
                }
                if 0x40 <= d && d <= 0x7E {
                    end = j + 1;
                    found = true;
                    proof {
                        assert(spec_csi_end(t, j - i as int) == Some(j + 1 - i as int));
                    }
                    break ;
                } else if 0x20 <= d && d <= 0x3F {
                    j = j + 1;
                } else {
                    proof {
                        assert(spec_csi_end(t, j - i as int) is None);
                    }
                    break ;
                }
            }
            if found {
                proof {
                    assert(spec_csi_end(t, 2) == Some(end - i as int));
                    assert(t.skip(end - i as int) =~= v@.skip(end as int));
                }
                i = end;
            } else {
                proof {
                    assert(spec_csi_end(t, 2) is None);
                    assert(t.skip(1) =~= v@.skip(i as int + 1));
                    lemma_seq_assoc(
                        prev,
                        seq![t[0]],
                        spec_remove_terminal_escapes(v@.skip(i as int + 1)),
                    );
                }
                out.push(c);
                proof {
                    assert(out@ =~= prev + seq![t[0]]);
                }
                i = i + 1;
            }
        } else {
            out.push(c);
            proof {
                assert(t.skip(1) =~= v@.skip(i as int + 1));
                assert(out@ =~= prev + seq![t[0]]);
                lemma_seq_assoc(
                    prev,
                    seq![t[0]],
                    spec_remove_terminal_escapes(v@.skip(i as int + 1)),
                );
            }
            i = i + 1;
        }
    }
    proof {
        assert(v@.skip(v@.len() as int) =~= Seq::<char>::empty());
        assert(out@ + spec_remove_terminal_escapes(Seq::empty()) =~= out@);
    }
    out
}

} // verus!
