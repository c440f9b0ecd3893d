//! The pipeline's general guarantees, stated and proved over the spec
//! functions the public contracts use: repairing a fixed point changes
//! nothing, clean printable ASCII is untouched, and with every stage off
//! the pipeline is the identity.

use crate::classify::{
    spec_printable_ascii, spec_cp1252_byte_of_char, spec_is_printable_ascii_char, spec_lig_expansion,
};
use crate::codec::{
    spec_1252_bytes, spec_1252_candidate, spec_all_1252, spec_all_latin1, spec_enc_step,
    spec_latin1_bytes, spec_latin1_candidate,
};
use crate::config::{spec_all_off_config, spec_default_config, TextFixerConfig};
use crate::entities::{spec_entity_at, spec_no_entities, spec_unescape_html};
use crate::norm::lemma_char_ascii_range;
use crate::pipeline::{
    spec_fix_steps, spec_fix_text, spec_pass, MAX_PASSES,
};
use crate::stages::{
    lemma_printable_skip, spec_fix_c1_controls, spec_fix_character_width, spec_fix_latin_ligatures,
    spec_fix_line_breaks, spec_remove_control_chars, spec_remove_terminal_escapes,
    spec_replace_lossy_sequences, spec_restore_byte_a0, spec_uncurl_quotes,
};
use crate::utf8runs::spec_decode_inconsistent_utf8;
use vstd::prelude::*;

verus! {

/// Repairing already-repaired text is a no-op: once a fix run ends on a
/// fixed point of the pass (the normal outcome; only an input still
/// changing after the pass cap escapes this), running it again returns
/// the same text and reports no steps.
pub proof fn lemma_fix_text_idempotent(c: TextFixerConfig, s: Seq<char>)
    requires
        spec_pass(c, spec_fix_text(c, s)).0 == spec_fix_text(c, s),
    ensures
        spec_fix_text(c, spec_fix_text(c, s)) == spec_fix_text(c, s),
        spec_fix_steps(c, spec_fix_text(c, s)) == Seq::<Seq<char>>::empty(),
{
    let t = spec_fix_text(c, s);
    assert(MAX_PASSES > 0);
}

/// Quote uncurling leaves clean printable ASCII alone.
pub proof fn lemma_uncurl_clean(s: Seq<char>)
    requires
        spec_printable_ascii(s),
    ensures
        spec_uncurl_quotes(s) == s,
    decreases s.len(),
{
    if s.len() > 0 {
        assert(spec_is_printable_ascii_char(s[0]));
        lemma_printable_skip(s, 1);
        lemma_uncurl_clean(s.skip(1));
        assert(seq![s[0]] + s.skip(1) =~= s);
    }
}

/// C1 reinterpretation leaves clean printable ASCII alone.
pub proof fn lemma_c1_clean(s: Seq<char>)
    requires
        spec_printable_ascii(s),
    ensures
        spec_fix_c1_controls(s) == s,
    decreases s.len(),
{
    if s.len() > 0 {
        assert(spec_is_printable_ascii_char(s[0]));
        lemma_printable_skip(s, 1);
        lemma_c1_clean(s.skip(1));
        assert(seq![s[0]] + s.skip(1) =~= s);
    }
}

/// Width repair leaves clean printable ASCII alone.
pub proof fn lemma_width_clean(s: Seq<char>)
    requires
        spec_printable_ascii(s),
    ensures
        spec_fix_character_width(s) == s,
    decreases s.len(),
{
    if s.len() > 0 {
        assert(spec_is_printable_ascii_char(s[0]));
        lemma_printable_skip(s, 1);
        lemma_width_clean(s.skip(1));
        assert(seq![s[0]] + s.skip(1) =~= s);
    }
}

/// Ligature expansion leaves clean printable ASCII alone.
pub proof fn lemma_ligatures_clean(s: Seq<char>)
    requires
        spec_printable_ascii(s),
    ensures
        spec_fix_latin_ligatures(s) == s,
    decreases s.len(),
{
    if s.len() > 0 {
        assert(spec_is_printable_ascii_char(s[0]));
        assert(spec_lig_expansion(s[0]) == seq![s[0]]);
        lemma_printable_skip(s, 1);
        lemma_ligatures_clean(s.skip(1));
        assert(seq![s[0]] + s.skip(1) =~= s);
    }
}

/// Line-break repair leaves clean printable ASCII alone.
pub proof fn lemma_line_breaks_clean(s: Seq<char>)
    requires
        spec_printable_ascii(s),
    ensures
        spec_fix_line_breaks(s) == s,
    decreases s.len(),
{
    if s.len() > 0 {
        assert(spec_is_printable_ascii_char(s[0]));
        lemma_printable_skip(s, 1);
        lemma_line_breaks_clean(s.skip(1));
        assert(seq![s[0]] + s.skip(1) =~= s);
    }
}

/// Control stripping leaves clean printable ASCII alone.
pub proof fn lemma_controls_clean(s: Seq<char>)
    requires
        spec_printable_ascii(s),
    ensures
        spec_remove_control_chars(s) == s,
    decreases s.len(),
{
    if s.len() > 0 {
        assert(spec_is_printable_ascii_char(s[0]));
        lemma_printable_skip(s, 1);
        lemma_controls_clean(s.skip(1));
        assert(seq![s[0]] + s.skip(1) =~= s);
    }
}

/// No-break-space restoration leaves clean printable ASCII alone.
pub proof fn lemma_a0_clean(s: Seq<char>)
    requires
        spec_printable_ascii(s),
    ensures
        spec_restore_byte_a0(s) == s,
    decreases s.len(),
{
    if s.len() > 0 {
        assert(spec_is_printable_ascii_char(s[0]));
        lemma_printable_skip(s, 1);
        lemma_a0_clean(s.skip(1));
        assert(seq![s[0]] + s.skip(1) =~= s);
    }
}

/// Lossy-sequence collapse leaves clean printable ASCII alone.
pub proof fn lemma_lossy_clean(s: Seq<char>)
    requires
        spec_printable_ascii(s),
    ensures
        spec_replace_lossy_sequences(s) == s,
    decreases s.len(),
{
    if s.len() > 0 {
        assert(spec_is_printable_ascii_char(s[0]));
        lemma_printable_skip(s, 1);
        lemma_lossy_clean(s.skip(1));
        assert(seq![s[0]] + s.skip(1) =~= s);
    }
}

/// Terminal-escape removal leaves clean printable ASCII alone.
pub proof fn lemma_term_esc_clean(s: Seq<char>)
    requires
        spec_printable_ascii(s),
    ensures
        spec_remove_terminal_escapes(s) == s,
    decreases s.len(),
{
    if s.len() > 0 {
        assert(spec_is_printable_ascii_char(s[0]));
        lemma_printable_skip(s, 1);
        lemma_term_esc_clean(s.skip(1));
        assert(seq![s[0]] + s.skip(1) =~= s);
    }
}

/// HTML unescaping leaves text without character references alone.
pub proof fn lemma_unescape_noentity(s: Seq<char>)
    requires
        spec_no_entities(s),
    ensures
        spec_unescape_html(s) == s,
    decreases s.len(),
{
    if s.len() > 0 {
        if s[0] == '&' {
            assert(s.skip(0) =~= s);
            assert(!(spec_entity_at(s.skip(0)) is Some));
        }
        assert forall|i: int|
            0 <= i < s.skip(1).len() && s.skip(1)[i] == '&' implies !(spec_entity_at(
            #[trigger] s.skip(1).skip(i),
        ) is Some) by {
            assert(s.skip(1)[i] == s[1 + i]);
            assert(s.skip(1).skip(i) =~= s.skip(1 + i));
        }
        lemma_unescape_noentity(s.skip(1));
        assert(seq![s[0]] + s.skip(1) =~= s);
    }
}

/// An ASCII character keeps its own byte under Windows-1252.
proof fn lemma_cp1252_byte_ascii(c: char)
    requires
        (c as u32) <= 0x7F,
    ensures
        spec_cp1252_byte_of_char(c) == Some(c as u8),
        (c as u8) < 0x80,
{
}

/// Embedded-UTF-8 repair leaves clean printable ASCII alone.
pub proof fn lemma_inconsistent_clean(s: Seq<char>)
    requires
        spec_printable_ascii(s),
    ensures
        spec_decode_inconsistent_utf8(s) == s,
    decreases s.len(),
{
    if s.len() > 0 {
        assert(spec_is_printable_ascii_char(s[0]));
        lemma_cp1252_byte_ascii(s[0]);
        assert(!crate::classify::spec_is_high_1252(s[0]));
        lemma_printable_skip(s, 1);
        lemma_inconsistent_clean(s.skip(1));
        assert(seq![s[0]] + s.skip(1) =~= s);
    }
}

/// On clean printable ASCII both re-decoding candidates reproduce the
/// text itself: ASCII bytes are already valid UTF-8 for the same text.
pub proof fn lemma_enc_candidates_clean(s: Seq<char>)
    requires
        spec_printable_ascii(s),
    ensures
        spec_latin1_candidate(s) == Some(s),
        spec_1252_candidate(s) == Some(s),
{
    assert forall|i: int| 0 <= i < s.len() implies '\0' <= #[trigger] s[i] <= '\u{7f}' by {
        assert(spec_is_printable_ascii_char(s[i]));
        lemma_char_ascii_range(s[i]);
    }
    assert(vstd::utf8::is_ascii_chars(s));
    vstd::utf8::is_ascii_chars_encode_utf8(s);
    vstd::utf8::encode_utf8_valid_utf8(s);
    vstd::utf8::encode_utf8_decode_utf8(s);
    assert(spec_all_latin1(s));
    assert(spec_latin1_bytes(s) =~= vstd::utf8::encode_utf8(s));
    assert forall|i: int| 0 <= i < s.len() implies spec_cp1252_byte_of_char(#[trigger] s[i])
        == Some(s[i] as u8) by {
        assert(spec_is_printable_ascii_char(s[i]));
        lemma_cp1252_byte_ascii(s[i]);
    }
    assert(spec_all_1252(s));
    assert(spec_1252_bytes(s) =~= vstd::utf8::encode_utf8(s));
}

/// On clean printable ASCII no re-decoding step ever fires, whatever the
/// configuration: the only candidates are the text itself, which cannot
/// strictly improve its own score.
pub proof fn lemma_enc_step_clean(c: TextFixerConfig, s: Seq<char>)
    requires
        spec_printable_ascii(s),
    ensures
        spec_enc_step(c, s) is None,
{
    lemma_enc_candidates_clean(s);
}

/// One pass under the default configuration leaves clean printable ASCII
/// alone and records no steps.
#[verifier::rlimit(100)]
pub proof fn lemma_pass_clean_default(s: Seq<char>)
    requires
        spec_printable_ascii(s),
        spec_no_entities(s),
    ensures
        spec_pass(spec_default_config(), s).0 == s,
        spec_pass(spec_default_config(), s).1 == Seq::<Seq<char>>::empty(),
{
    let c = spec_default_config();
    lemma_term_esc_clean(s);
    lemma_unescape_noentity(s);
    lemma_enc_step_clean(c, s);
    lemma_a0_clean(s);
    lemma_lossy_clean(s);
    lemma_inconsistent_clean(s);
    lemma_c1_clean(s);
    lemma_ligatures_clean(s);
    lemma_width_clean(s);
    lemma_uncurl_clean(s);
    lemma_line_breaks_clean(s);
    lemma_controls_clean(s);
    assert forall|i: int| 0 <= i < s.len() implies '\0' <= #[trigger] s[i] <= '\u{7f}' by {
        assert(spec_is_printable_ascii_char(s[i]));
        lemma_char_ascii_range(s[i]);
    }
    assert(vstd::utf8::is_ascii_chars(s));
    assert(Seq::<Seq<char>>::empty() + Seq::new(0nat, |i: int| "fix_encoding"@)
        =~= Seq::<Seq<char>>::empty());
    assert(spec_pass(c, s).0 == s);
    assert(spec_pass(c, s).1 =~= Seq::<Seq<char>>::empty());
}

/// Identity on clean ASCII: a string of printable ASCII holding no
/// character reference (and so no entities or control codes) comes back
/// from the default configuration unchanged, with an empty trace.
pub proof fn lemma_fix_text_clean_ascii(s: Seq<char>)
    requires
        spec_printable_ascii(s),
        spec_no_entities(s),
    ensures
        spec_fix_text(spec_default_config(), s) == s,
        spec_fix_steps(spec_default_config(), s) == Seq::<Seq<char>>::empty(),
{
    lemma_pass_clean_default(s);
    assert(MAX_PASSES > 0);
}

/// Disabled stages are no-ops: with every stage switched off the
/// pipeline returns any text unchanged, with an empty trace.
pub proof fn lemma_fix_text_all_off(s: Seq<char>)
    ensures
        spec_fix_text(spec_all_off_config(), s) == s,
        spec_fix_steps(spec_all_off_config(), s) == Seq::<Seq<char>>::empty(),
{
    let c = spec_all_off_config();
    assert(Seq::<Seq<char>>::empty() + Seq::new(0nat, |i: int| "fix_encoding"@)
        =~= Seq::<Seq<char>>::empty());
    assert(spec_pass(c, s).0 == s);
    assert(spec_pass(c, s).1 =~= Seq::<Seq<char>>::empty());
    assert(MAX_PASSES > 0);
}

} // verus!
