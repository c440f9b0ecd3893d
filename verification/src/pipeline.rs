//! The pipeline driver: one pass applies the enabled stages in their
//! fixed order; the driver re-runs the pass until the text stops changing
//! or a small pass bound is hit, collecting one explanation step per
//! stage (or re-decoding iteration) that actually changed the text.

use crate::codec::{fix_encoding_loop, spec_enc_fix, MAX_ENCODING_PASSES};
use crate::config::{
    spec_default_config, ExplainedText, ExplanationStep, TextFixerConfig, UnescapeMode,
};
use crate::entities::{spec_unescape_html, stage_unescape_html};
use crate::norm::{spec_normalize, stage_normalize};
use crate::stages::{
    spec_fix_c1_controls, spec_fix_character_width, spec_fix_latin_ligatures,
    spec_fix_line_breaks, spec_remove_control_chars, spec_remove_terminal_escapes,
    spec_replace_lossy_sequences, spec_restore_byte_a0, spec_uncurl_quotes,
    stage_fix_c1_controls, stage_fix_character_width, stage_fix_latin_ligatures,
    stage_fix_line_breaks, stage_remove_control_chars, stage_remove_terminal_escapes,
    stage_replace_lossy_sequences, stage_restore_byte_a0, stage_uncurl_quotes,
};
use crate::textbuf::{chars_to_string, str_to_chars, vec_char_eq};
use crate::utf8runs::{spec_decode_inconsistent_utf8, stage_decode_inconsistent_utf8};
use vstd::prelude::*;

verus! {

/// The cap on whole-pipeline passes: repair normally reaches its fixed
/// point in one or two passes, and the bound guarantees termination even
/// on adversarial input.
pub const MAX_PASSES: usize = 5;

/// Concatenation of step traces is associative.
pub proof fn lemma_steps_assoc(a: Seq<Seq<char>>, b: Seq<Seq<char>>, c: Seq<Seq<char>>)
    ensures
        (a + b) + c == a + (b + c),
{
    assert((a + b) + c =~= a + (b + c));
}

/// The step identifiers a vector of strings stands for.
pub open spec fn spec_names_view(s: Seq<String>) -> Seq<Seq<char>> {
    s.map_values(|x: String| x@)
}

/// The step identifiers a vector of explanation steps stands for.
pub open spec fn spec_steps_view(s: Seq<ExplanationStep>) -> Seq<Seq<char>> {
    s.map_values(|st: ExplanationStep| st@)
}

/// Mapping to views commutes with appending one string.
proof fn lemma_names_view_push(s: Seq<String>, x: String)
    ensures
        spec_names_view(s.push(x)) == spec_names_view(s).push(x@),
{
    assert forall|j: int| 0 <= j < s.len() + 1 implies #[trigger] spec_names_view(s.push(x))[j]
        == spec_names_view(s).push(x@)[j] by {
        if j < s.len() {
            assert(s.push(x)[j] == s[j]);
        } else {
            assert(s.push(x)[j] == x);
        }
    }
    assert(spec_names_view(s.push(x)) =~= spec_names_view(s).push(x@));
}

/// Mapping to views commutes with appending one step record.
proof fn lemma_steps_view_push(s: Seq<ExplanationStep>, x: ExplanationStep)
    ensures
        spec_steps_view(s.push(x)) == spec_steps_view(s).push(x@),
{
    assert forall|j: int| 0 <= j < s.len() + 1 implies #[trigger] spec_steps_view(s.push(x))[j]
        == spec_steps_view(s).push(x@)[j] by {
        if j < s.len() {
            assert(s.push(x)[j] == s[j]);
        } else {
            assert(s.push(x)[j] == x);
        }
    }
    assert(spec_steps_view(s.push(x)) =~= spec_steps_view(s).push(x@));
}

/// A step trace grows by the stage's name exactly when the stage changed
/// the text.
pub open spec fn spec_app_step(steps: Seq<Seq<char>>, name: Seq<char>, changed: bool) -> Seq<
    Seq<char>,
> {
    if changed {
        steps.push(name)
    } else {
        steps
    }
}

/// The early normalization passes and the encoding-repair loop: what
/// runs before the independent character-level stages.
pub open spec fn spec_pass_early(c: TextFixerConfig, s: Seq<char>) -> (Seq<char>, Seq<Seq<char>>) {
    let t1 = if c.remove_terminal_escapes {
        spec_remove_terminal_escapes(s)
    } else {
        s
    };
    let s1 = spec_app_step(Seq::empty(), "remove_terminal_escapes"@, t1 != s);
    let t2 = if c.unescape_html != UnescapeMode::Off {
        spec_unescape_html(t1)
    } else {
        t1
    };
    let s2 = spec_app_step(s1, "unescape_html"@, t2 != t1);
    let er = if c.fix_encoding {
        spec_enc_fix(c, t2, MAX_ENCODING_PASSES as nat)
    } else {
        (t2, 0nat)
    };
    let t3 = er.0;
    let s3 = s2 + Seq::new(er.1, |i: int| "fix_encoding"@);
    (t3, s3)
}

/// The first half of the independent character-level stages.
pub open spec fn spec_pass_late_a(c: TextFixerConfig, t3: Seq<char>) -> (Seq<char>, Seq<Seq<char>>) {
    let t4 = if c.restore_byte_a0 {
        spec_restore_byte_a0(t3)
    } else {
        t3
    };
    let s4 = spec_app_step(Seq::empty(), "restore_byte_a0"@, t4 != t3);
    let t5 = if c.replace_lossy_sequences {
        spec_replace_lossy_sequences(t4)
    } else {
        t4
    };
    let s5 = spec_app_step(s4, "replace_lossy_sequences"@, t5 != t4);
    let t6 = if c.decode_inconsistent_utf8 {
        spec_decode_inconsistent_utf8(t5)
    } else {
        t5
    };
    let s6 = spec_app_step(s5, "decode_inconsistent_utf8"@, t6 != t5);
    let t7 = if c.fix_c1_controls {
        spec_fix_c1_controls(t6)
    } else {
        t6
    };
    let s7 = spec_app_step(s6, "fix_c1_controls"@, t7 != t6);
    let t8 = if c.fix_latin_ligatures {
        spec_fix_latin_ligatures(t7)
    } else {
        t7
    };
    let s8 = spec_app_step(s7, "fix_latin_ligatures"@, t8 != t7);
    (t8, s8)
}

/// The second half of the independent stages and the final normalization.
pub open spec fn spec_pass_late_b(c: TextFixerConfig, t8: Seq<char>) -> (Seq<char>, Seq<Seq<char>>) {
    let t9 = if c.fix_character_width {
        spec_fix_character_width(t8)
    } else {
        t8
    };
    let s9 = spec_app_step(Seq::empty(), "fix_character_width"@, t9 != t8);
    let t10 = if c.uncurl_quotes {
        spec_uncurl_quotes(t9)
    } else {
        t9
    };
    let s10 = spec_app_step(s9, "uncurl_quotes"@, t10 != t9);
    let t11 = if c.fix_line_breaks {
        spec_fix_line_breaks(t10)
    } else {
        t10
    };
    let s11 = spec_app_step(s10, "fix_line_breaks"@, t11 != t10);
    let t12 = if c.remove_control_chars {
        spec_remove_control_chars(t11)
    } else {
        t11
    };
    let s12 = spec_app_step(s11, "remove_control_chars"@, t12 != t11);
    let t13 = spec_normalize(c.normalization, t12);
    let s13 = spec_app_step(s12, "normalization"@, t13 != t12);
    (t13, s13)
}

/// The independent character-level stages and the final normalization.
pub open spec fn spec_pass_late(c: TextFixerConfig, t3: Seq<char>) -> (Seq<char>, Seq<Seq<char>>) {
    let a = spec_pass_late_a(c, t3);
    let b = spec_pass_late_b(c, a.0);
    (b.0, a.1 + b.1)
}

/// One pass of the pipeline: the repaired text and the identifiers of the
/// stages that changed it, in application order.
pub open spec fn spec_pass(c: TextFixerConfig, s: Seq<char>) -> (Seq<char>, Seq<Seq<char>>) {
    let early = spec_pass_early(c, s);
    let late = spec_pass_late(c, early.0);
    (late.0, early.1 + late.1)
}

/// Appends the stage's identifier when it changed the text and an
/// explanation was requested.
fn record_step(steps: &mut Vec<String>, name: &str, explain: bool, changed: bool)
    ensures
        explain ==> spec_names_view(final(steps)@) == spec_app_step(
            spec_names_view(old(steps)@),
            name@,
            changed,
        ),
        !explain ==> final(steps)@ == old(steps)@,
{
    if explain && changed {
        let owned = name.to_owned();
        proof {
            lemma_names_view_push(steps@, owned);
        }
        steps.push(owned);
    }
}

/// Appends all of `b` to `a`.
fn append_strings(a: &mut Vec<String>, b: &Vec<String>)
    ensures
        spec_names_view(final(a)@) == spec_names_view(old(a)@)
            + spec_names_view(b@),
{
    let mut i: usize = 0;
    proof {
        assert(spec_names_view(a@) =~= spec_names_view(old(a)@)
            + spec_names_view(b@.take(0)));
    }
    while i < b.len()
        invariant
            i <= b.len(),
            spec_names_view(a@) == spec_names_view(old(a)@) + spec_names_view(b@.take(i as int)),
        decreases b.len() - i,
    {
        let x = b[i].clone();
        proof {
            lemma_names_view_push(a@, x);
            assert(b@.take(i as int + 1) =~= b@.take(i as int).push(b@[i as int]));
            lemma_names_view_push(b@.take(i as int), b@[i as int]);
            assert(spec_names_view(old(a)@) + spec_names_view(b@.take(i as int)).push(x@)
                =~= (spec_names_view(old(a)@) + spec_names_view(b@.take(i as int))).push(x@));
        }
        a.push(x);
        i = i + 1;
    }
    proof {
        assert(b@.take(b@.len() as int) =~= b@);
    }
}

/// The early half of one pass: terminal escapes, HTML entities, and the
/// encoding-repair loop.
#[verifier::rlimit(100)]
fn pass_early(c: &TextFixerConfig, v: &Vec<char>, explain: bool) -> (r: (Vec<char>, Vec<String>))
    ensures
        r.0@ == spec_pass_early(*c, v@).0,
        explain ==> spec_names_view(r.1@) == spec_pass_early(*c, v@).1,
        !explain ==> r.1@.len() == 0,
{
    let mut cur = crate::norm::copy_chars(v);
    let mut steps: Vec<String> = Vec::new();
    let ghost mut gt: Seq<char> = v@;
    let ghost mut gs: Seq<Seq<char>> = Seq::empty();
    proof {
        assert(spec_names_view(steps@) =~= gs);
    }
    if c.remove_terminal_escapes {
        let nxt = stage_remove_terminal_escapes(&cur);
        let changed = !vec_char_eq(&nxt, &cur);
        record_step(&mut steps, "remove_terminal_escapes", explain, changed);
        if changed {
            cur = nxt;
        }
        proof {
            gs = spec_app_step(gs, "remove_terminal_escapes"@, spec_remove_terminal_escapes(gt)
                != gt);
            gt = spec_remove_terminal_escapes(gt);
        }
    }
    if c.unescape_html != UnescapeMode::Off {
        let nxt = stage_unescape_html(&cur);
        let changed = !vec_char_eq(&nxt, &cur);
        record_step(&mut steps, "unescape_html", explain, changed);
        if changed {
            cur = nxt;
        }
        proof {
            gs = spec_app_step(gs, "unescape_html"@, spec_unescape_html(gt) != gt);
            gt = spec_unescape_html(gt);
        }
    }
    if c.fix_encoding {
        let pr = fix_encoding_loop(c, cur);
        cur = pr.0;
        let cnt = pr.1;
        if explain {
            let mut m: usize = 0;
            proof {
                assert(spec_names_view(steps@) =~= gs + Seq::new(
                    0nat,
                    |i: int| "fix_encoding"@,
                ));
            }
            while m < cnt
                invariant
                    m <= cnt,
                    explain,
                    spec_names_view(steps@) == gs + Seq::new(
                        m as nat,
                        |i: int| "fix_encoding"@,
                    ),
                decreases cnt - m,
            {
                let owned = "fix_encoding".to_owned();
                proof {
                    lemma_names_view_push(steps@, owned);
                    assert((gs + Seq::new(m as nat, |i: int| "fix_encoding"@)).push(owned@)
                        =~= gs + Seq::new(m as nat + 1, |i: int| "fix_encoding"@));
                }
                steps.push(owned);
                m = m + 1;
            }
        }
        proof {
            gs = gs + Seq::new(
                spec_enc_fix(*c, gt, MAX_ENCODING_PASSES as nat).1,
                |i: int| "fix_encoding"@,
            );
            gt = spec_enc_fix(*c, gt, MAX_ENCODING_PASSES as nat).0;
        }
    } else {
        proof {
            assert(gs + Seq::new(0nat, |i: int| "fix_encoding"@) =~= gs);
            gs = gs + Seq::new(0nat, |i: int| "fix_encoding"@);
        }
    }
    proof {
        assert(gt == spec_pass_early(*c, v@).0);
        assert(gs == spec_pass_early(*c, v@).1);
    }
    (cur, steps)
}

/// The first half of the independent character-level stages.
#[verifier::rlimit(100)]
fn pass_late_a(c: &TextFixerConfig, v: Vec<char>, explain: bool) -> (r: (Vec<char>, Vec<String>))
    ensures
        r.0@ == spec_pass_late_a(*c, v@).0,
        explain ==> spec_names_view(r.1@) == spec_pass_late_a(*c, v@).1,
        !explain ==> r.1@.len() == 0,
{
    let mut cur = v;
    let mut steps: Vec<String> = Vec::new();
    let ghost mut gt: Seq<char> = cur@;
    let ghost mut gs: Seq<Seq<char>> = Seq::empty();
    let ghost v0 = cur@;
    proof {
        assert(spec_names_view(steps@) =~= gs);
    }
    if c.restore_byte_a0 {
        let nxt = stage_restore_byte_a0(&cur);
        let changed = !vec_char_eq(&nxt, &cur);
        record_step(&mut steps, "restore_byte_a0", explain, changed);
        if changed {
            cur = nxt;
        }
        proof {
            gs = spec_app_step(gs, "restore_byte_a0"@, spec_restore_byte_a0(gt) != gt);
            gt = spec_restore_byte_a0(gt);
        }
    }
    if c.replace_lossy_sequences {
        let nxt = stage_replace_lossy_sequences(&cur);
        let changed = !vec_char_eq(&nxt, &cur);
        record_step(&mut steps, "replace_lossy_sequences", explain, changed);
        if changed {
            cur = nxt;
        }
        proof {
            gs = spec_app_step(gs, "replace_lossy_sequences"@, spec_replace_lossy_sequences(gt)
                != gt);
            gt = spec_replace_lossy_sequences(gt);
        }
    }
    if c.decode_inconsistent_utf8 {
        let nxt = stage_decode_inconsistent_utf8(&cur);
        let changed = !vec_char_eq(&nxt, &cur);
        record_step(&mut steps, "decode_inconsistent_utf8", explain, changed);
        if changed {
            cur = nxt;
        }
        proof {
            gs = spec_app_step(gs, "decode_inconsistent_utf8"@, spec_decode_inconsistent_utf8(gt)
                != gt);
            gt = spec_decode_inconsistent_utf8(gt);
        }
    }
    if c.fix_c1_controls {
        let nxt = stage_fix_c1_controls(&cur);
        let changed = !vec_char_eq(&nxt, &cur);
        record_step(&mut steps, "fix_c1_controls", explain, changed);
        if changed {
            cur = nxt;
        }
        proof {
            gs = spec_app_step(gs, "fix_c1_controls"@, spec_fix_c1_controls(gt) != gt);
            gt = spec_fix_c1_controls(gt);
        }
    }
    if c.fix_latin_ligatures {
        let nxt = stage_fix_latin_ligatures(&cur);
        let changed = !vec_char_eq(&nxt, &cur);
        record_step(&mut steps, "fix_latin_ligatures", explain, changed);
        if changed {
            cur = nxt;
        }
        proof {
            gs = spec_app_step(gs, "fix_latin_ligatures"@, spec_fix_latin_ligatures(gt) != gt);
            gt = spec_fix_latin_ligatures(gt);
        }
    }
    proof {
        assert(gt == spec_pass_late_a(*c, v0).0);
        assert(gs == spec_pass_late_a(*c, v0).1);
    }
    (cur, steps)
}

/// The second half of the independent stages and the final normalization.
#[verifier::rlimit(100)]
fn pass_late_b(c: &TextFixerConfig, v: Vec<char>, explain: bool) -> (r: (Vec<char>, Vec<String>))
    ensures
        r.0@ == spec_pass_late_b(*c, v@).0,
        explain ==> spec_names_view(r.1@) == spec_pass_late_b(*c, v@).1,
        !explain ==> r.1@.len() == 0,
{
    let mut cur = v;
    let mut steps: Vec<String> = Vec::new();
    let ghost mut gt: Seq<char> = cur@;
    let ghost mut gs: Seq<Seq<char>> = Seq::empty();
    let ghost v0 = cur@;
    proof {
        assert(spec_names_view(steps@) =~= gs);
    }
    if c.fix_character_width {
        let nxt = stage_fix_character_width(&cur);
        let changed = !vec_char_eq(&nxt, &cur);
        record_step(&mut steps, "fix_character_width", explain, changed);
        if changed {
            cur = nxt;
        }
        proof {
            gs = spec_app_step(gs, "fix_character_width"@, spec_fix_character_width(gt) != gt);
            gt = spec_fix_character_width(gt);
        }
    }
    if c.uncurl_quotes {
        let nxt = stage_uncurl_quotes(&cur);
        let changed = !vec_char_eq(&nxt, &cur);
        record_step(&mut steps, "uncurl_quotes", explain, changed);
        if changed {
            cur = nxt;
        }
        proof {
            gs = spec_app_step(gs, "uncurl_quotes"@, spec_uncurl_quotes(gt) != gt);
            gt = spec_uncurl_quotes(gt);
        }
    }
    if c.fix_line_breaks {
        let nxt = stage_fix_line_breaks(&cur);
        let changed = !vec_char_eq(&nxt, &cur);
        record_step(&mut steps, "fix_line_breaks", explain, changed);
        if changed {
            cur = nxt;
        }
        proof {
            gs = spec_app_step(gs, "fix_line_breaks"@, spec_fix_line_breaks(gt) != gt);
            gt = spec_fix_line_breaks(gt);
        }
    }
    if c.remove_control_chars {
        let nxt = stage_remove_control_chars(&cur);
        let changed = !vec_char_eq(&nxt, &cur);
        record_step(&mut steps, "remove_control_chars", explain, changed);
        if changed {
            cur = nxt;
        }
        proof {
            gs = spec_app_step(gs, "remove_control_chars"@, spec_remove_control_chars(gt) != gt);
            gt = spec_remove_control_chars(gt);
        }
    }
    let nxt = stage_normalize(c.normalization, &cur);
    let changed = !vec_char_eq(&nxt, &cur);
    record_step(&mut steps, "normalization", explain, changed);
    if changed {
        cur = nxt;
    }
    proof {
        gs = spec_app_step(gs, "normalization"@, spec_normalize(c.normalization, gt) != gt);
        gt = spec_normalize(c.normalization, gt);
        assert(gt == spec_pass_late_b(*c, v0).0);
        assert(gs == spec_pass_late_b(*c, v0).1);
    }
    (cur, steps)
}

/// The independent character-level stages and the final normalization.
fn pass_late(c: &TextFixerConfig, v: Vec<char>, explain: bool) -> (r: (Vec<char>, Vec<String>))
    ensures
        r.0@ == spec_pass_late(*c, v@).0,
        explain ==> spec_names_view(r.1@) == spec_pass_late(*c, v@).1,
        !explain ==> r.1@.len() == 0,
{
    let a = pass_late_a(c, v, explain);
    let b = pass_late_b(c, a.0, explain);
    let mut steps = a.1;
    if explain {
        append_strings(&mut steps, &b.1);
    }
    (b.0, steps)
}

/// One pass of the pipeline over the buffer.
fn pass(c: &TextFixerConfig, v: &Vec<char>, explain: bool) -> (r: (Vec<char>, Vec<String>))
    ensures
        r.0@ == spec_pass(*c, v@).0,
        explain ==> spec_names_view(r.1@) == spec_pass(*c, v@).1,
        !explain ==> r.1@.len() == 0,
{
    let early = pass_early(c, v, explain);
    let late = pass_late(c, early.0, explain);
    let mut steps = early.1;
    if explain {
        append_strings(&mut steps, &late.1);
    } else {
        proof {
            assert(steps@.len() == 0);
        }
    }
    (late.0, steps)
}

/// The repaired text after re-running the pass to its fixed point,
/// bounded by the pass cap.
pub open spec fn spec_fix_rec(c: TextFixerConfig, s: Seq<char>, fuel: nat) -> Seq<char>
    decreases fuel,
{
    if fuel == 0 {
        s
    } else {
        let t = spec_pass(c, s).0;
        if t == s {
            s
        } else {
            spec_fix_rec(c, t, (fuel - 1) as nat)
        }
    }
}

/// The explanation steps accumulated while re-running the pass.
pub open spec fn spec_fix_steps_rec(c: TextFixerConfig, s: Seq<char>, fuel: nat) -> Seq<Seq<char>>
    decreases fuel,
{
    if fuel == 0 {
        Seq::empty()
    } else {
        let p = spec_pass(c, s);
        if p.0 == s {
            Seq::empty()
        } else {
            p.1 + spec_fix_steps_rec(c, p.0, (fuel - 1) as nat)
        }
    }
}

/// What `fix_text` returns for this text and configuration.
pub open spec fn spec_fix_text(c: TextFixerConfig, s: Seq<char>) -> Seq<char> {
    spec_fix_rec(c, s, MAX_PASSES as nat)
}

/// The explanation trace `fix_and_explain` reports for this text and
/// configuration.
pub open spec fn spec_fix_steps(c: TextFixerConfig, s: Seq<char>) -> Seq<Seq<char>> {
    spec_fix_steps_rec(c, s, MAX_PASSES as nat)
}

/// Runs passes until the text stops changing or the cap is reached.
fn fix_chars(c: &TextFixerConfig, v: Vec<char>, explain: bool) -> (r: (Vec<char>, Vec<String>))
    ensures
        r.0@ == spec_fix_text(*c, v@),
        explain ==> spec_names_view(r.1@) == spec_fix_steps(*c, v@),
        !explain ==> r.1@.len() == 0,
{
    let mut cur = v;
    let mut steps: Vec<String> = Vec::new();
    let mut fuel: usize = MAX_PASSES;
    let mut done = false;
    let ghost orig = cur@;
    proof {
        assert(spec_names_view(steps@) =~= Seq::<Seq<char>>::empty());
        assert(Seq::<Seq<char>>::empty() + spec_fix_steps_rec(*c, cur@, fuel as nat)
            =~= spec_fix_steps_rec(*c, cur@, fuel as nat));
    }
    while fuel > 0 && !done
        invariant
            fuel <= MAX_PASSES,
            spec_fix_rec(*c, orig, MAX_PASSES as nat) == spec_fix_rec(*c, cur@, fuel as nat),
            explain ==> spec_fix_steps_rec(*c, orig, MAX_PASSES as nat) == spec_names_view(steps@)
                + spec_fix_steps_rec(*c, cur@, fuel as nat),
            !explain ==> steps@.len() == 0,
            done ==> spec_pass(*c, cur@).0 == cur@,
        decreases fuel + (if done {
            0int
        } else {
            1int
        }),
    {
        let pr = pass(c, &cur, explain);
        let changed = !vec_char_eq(&pr.0, &cur);
        if !changed {
            done = true;
        } else {
            if explain {
                proof {
                    lemma_steps_assoc(
                        spec_names_view(steps@),
                        spec_pass(*c, cur@).1,
                        spec_fix_steps_rec(*c, spec_pass(*c, cur@).0, (fuel - 1) as nat),
                    );
                }
                append_strings(&mut steps, &pr.1);
            }
            cur = pr.0;
            fuel = fuel - 1;
        }
    }
    proof {
        assert(spec_fix_rec(*c, cur@, fuel as nat) == cur@);
        assert(spec_fix_steps_rec(*c, cur@, fuel as nat) =~= Seq::<Seq<char>>::empty());
        assert(spec_names_view(steps@) + Seq::<Seq<char>>::empty() =~= spec_names_view(steps@));
    }
    (cur, steps)
}

/// The configuration a call runs under: the one supplied, or the default.
pub open spec fn spec_config_of(config: Option<&TextFixerConfig>) -> TextFixerConfig {
    match config {
        Some(c) => *c,
        None => spec_default_config(),
    }
}

/// Repairs the text under the given (or default) configuration. The
/// result is a pure function of the text and configuration, so repeated
/// calls return byte-identical output.
pub fn fix_text(text: &str, config: Option<&TextFixerConfig>) -> (r: String)
    ensures
        r@ == spec_fix_text(spec_config_of(config), text@),
{
    let cfg = match config {
        Some(c) => *c,
        None => TextFixerConfig::default(),
    };
    let chars = str_to_chars(text);
    let fixed = fix_chars(&cfg, chars, false);
    chars_to_string(&fixed.0)
}

/// Repairs the text and, when asked, reports which stages changed it, in
/// application order. With `explain` false no trace is built at all.
pub fn fix_and_explain(text: &str, explain: bool, config: Option<&TextFixerConfig>) -> (r:
    ExplainedText)
    ensures
        r.text@ == spec_fix_text(spec_config_of(config), text@),
        !explain ==> r.steps is None,
        explain ==> r.steps is Some && spec_steps_view(r.steps->0@)
            == spec_fix_steps(spec_config_of(config), text@),
{
    let cfg = match config {
        Some(c) => *c,
        None => TextFixerConfig::default(),
    };
    let chars = str_to_chars(text);
    let pr = fix_chars(&cfg, chars, explain);
    let text_out = chars_to_string(&pr.0);
    if explain {
        let names = pr.1;
        let mut out_steps: Vec<ExplanationStep> = Vec::new();
        let mut i: usize = 0;
        proof {
            assert(spec_steps_view(out_steps@) =~= spec_names_view(names@.take(0)));
        }
        while i < names.len()
            invariant
                i <= names.len(),
                spec_steps_view(out_steps@) == spec_names_view(names@.take(i as int)),
            decreases names.len() - i,
        {
            let step = ExplanationStep { transformation: names[i].clone() };
            proof {
                lemma_steps_view_push(out_steps@, step);
                assert(names@.take(i as int + 1) =~= names@.take(i as int).push(names@[i as int]));
                lemma_names_view_push(names@.take(i as int), names@[i as int]);
            }
            out_steps.push(step);
            i = i + 1;
        }
        proof {
            assert(names@.take(names@.len() as int) =~= names@);
        }
        ExplainedText { text: text_out, steps: Some(out_steps) }
    } else {
        ExplainedText { text: text_out, steps: None }
    }
}

} // verus!
