use plsfix::{fix_and_explain, fix_text, TextFixerConfig, UnescapeMode};

fn only(f: impl FnOnce(&mut TextFixerConfig)) -> TextFixerConfig {
    let mut c = TextFixerConfig::all_off();
    f(&mut c);
    c
}

#[test]
fn identity_on_clean_ascii() {
    let s = "The quick brown fox jumps over the lazy dog: 42!";
    assert_eq!(fix_text(s, None), s);
}

#[test]
fn identity_on_empty() {
    assert_eq!(fix_text("", None), "");
}

#[test]
fn html_unescape_amp_only_stage() {
    let c = only(|c| c.unescape_html = UnescapeMode::On);
    assert_eq!(fix_text("&amp;", Some(&c)), "&");
}

#[test]
fn html_unescape_default_config() {
    assert_eq!(fix_text("&amp;", None), "&");
    assert_eq!(fix_text("&lt;b&gt;", None), "<b>");
}

#[test]
fn html_unescape_named_and_numeric() {
    let c = only(|c| c.unescape_html = UnescapeMode::On);
    assert_eq!(fix_text("&quot;&apos;&nbsp;", Some(&c)), "\"'\u{a0}");
    assert_eq!(fix_text("&#65;&#233;", Some(&c)), "A\u{e9}");
}

#[test]
fn html_unescape_leaves_malformed_references() {
    let c = only(|c| c.unescape_html = UnescapeMode::On);
    assert_eq!(fix_text("fish & chips", Some(&c)), "fish & chips");
    assert_eq!(fix_text("&unknown;", Some(&c)), "&unknown;");
    // more digits than any scalar value has
    assert_eq!(fix_text("&#99999999;", Some(&c)), "&#99999999;");
    // a surrogate is not a Unicode scalar value
    assert_eq!(fix_text("&#55296;", Some(&c)), "&#55296;");
}

#[test]
fn mojibake_cafe_repaired() {
    // "café" encoded as UTF-8, mis-decoded as Latin-1
    assert_eq!(fix_text("caf\u{c3}\u{a9}", None), "caf\u{e9}");
}

#[test]
fn mojibake_double_encoding_two_steps() {
    let mut c = TextFixerConfig::all_off();
    c.fix_encoding = true;
    c.max_decode_length = 1000;
    // "café" put through the Latin-1 confusion twice
    let garbled = "caf\u{c3}\u{83}\u{c2}\u{a9}";
    assert_eq!(fix_text(garbled, Some(&c)), "caf\u{e9}");
    let r = fix_and_explain(garbled, true, Some(&c));
    let steps = r.steps.expect("explanation requested");
    assert_eq!(steps.len(), 2);
    assert_eq!(steps[0].transformation, "fix_encoding");
    assert_eq!(steps[1].transformation, "fix_encoding");
}

#[test]
fn windows_1252_mojibake_repaired() {
    // a right single quote (U+2019) seen through the UTF-8/1252 confusion
    let mut c = TextFixerConfig::all_off();
    c.fix_encoding = true;
    c.max_decode_length = 1000;
    assert_eq!(fix_text("don\u{e2}\u{20ac}\u{2122}t", Some(&c)), "don\u{2019}t");
}

#[test]
fn disabled_uncurl_is_noop() {
    let c = TextFixerConfig::all_off();
    assert_eq!(fix_text("\u{2018}hi\u{2019}", Some(&c)), "\u{2018}hi\u{2019}");
}

#[test]
fn enabled_uncurl_straightens_quotes() {
    let c = only(|c| c.uncurl_quotes = true);
    assert_eq!(fix_text("\u{2018}hi\u{2019}", Some(&c)), "'hi'");
    assert_eq!(fix_text("\u{201c}hi\u{201d}", Some(&c)), "\"hi\"");
}

#[test]
fn determinism_repeated_calls() {
    let s = "caf\u{c3}\u{a9} &amp; \u{2018}tea\u{2019}";
    let a = fix_text(s, None);
    let b = fix_text(s, None);
    assert_eq!(a, b);
    let ea = fix_and_explain(s, true, None);
    let eb = fix_and_explain(s, true, None);
    assert_eq!(ea.text, eb.text);
    let sa: Vec<String> = ea.steps.unwrap().iter().map(|p| p.transformation.clone()).collect();
    let sb: Vec<String> = eb.steps.unwrap().iter().map(|p| p.transformation.clone()).collect();
    assert_eq!(sa, sb);
}

#[test]
fn explanation_two_stages_in_order() {
    let r = fix_and_explain("\u{2018}hi\u{2019} &amp; ok", true, None);
    assert_eq!(r.text, "'hi' & ok");
    let steps = r.steps.expect("explanation requested");
    let names: Vec<String> = steps.iter().map(|p| p.transformation.clone()).collect();
    assert_eq!(names, vec!["unescape_html".to_string(), "uncurl_quotes".to_string()]);
}

#[test]
fn explanation_absent_when_not_requested() {
    let r = fix_and_explain("\u{2018}hi\u{2019} &amp; ok", false, None);
    assert_eq!(r.text, "'hi' & ok");
    assert!(r.steps.is_none());
}

#[test]
fn long_span_skipped_by_decoder() {
    let mut c = TextFixerConfig::all_off();
    c.fix_encoding = true;
    c.max_decode_length = 4;
    // five characters: over the bound, so no candidate is attempted
    assert_eq!(fix_text("caf\u{c3}\u{a9}", Some(&c)), "caf\u{c3}\u{a9}");
    // the same text under a roomier bound is repaired
    c.max_decode_length = 100;
    assert_eq!(fix_text("caf\u{c3}\u{a9}", Some(&c)), "caf\u{e9}");
}

#[test]
fn nonpositive_decode_length_disables_redecoding() {
    let mut c = TextFixerConfig::all_off();
    c.fix_encoding = true;
    c.max_decode_length = 0;
    assert_eq!(fix_text("caf\u{c3}\u{a9}", Some(&c)), "caf\u{c3}\u{a9}");
    c.max_decode_length = -7;
    assert_eq!(fix_text("caf\u{c3}\u{a9}", Some(&c)), "caf\u{c3}\u{a9}");
}

#[test]
fn c1_controls_reinterpreted() {
    let c = only(|c| c.fix_c1_controls = true);
    assert_eq!(fix_text("a\u{92}b\u{85}c", Some(&c)), "a\u{2019}b\u{2026}c");
}

#[test]
fn ligatures_expanded() {
    let c = only(|c| c.fix_latin_ligatures = true);
    assert_eq!(fix_text("\u{fb01}le \u{fb00}ort", Some(&c)), "file ffort");
    assert_eq!(fix_text("\u{132}sselmeer", Some(&c)), "IJsselmeer");
}

#[test]
fn width_fixed() {
    let c = only(|c| c.fix_character_width = true);
    assert_eq!(fix_text("\u{ff21}\u{ff22}\u{ff23}\u{3000}!", Some(&c)), "ABC !");
}

#[test]
fn line_breaks_normalized() {
    let c = only(|c| c.fix_line_breaks = true);
    assert_eq!(fix_text("a\r\nb\rc\u{2028}d\u{2029}e\u{85}f", Some(&c)), "a\nb\nc\nd\ne\nf");
}

#[test]
fn control_chars_removed() {
    let c = only(|c| c.remove_control_chars = true);
    assert_eq!(fix_text("a\u{0}b\u{7}c\u{7f}d\u{feff}e", Some(&c)), "abcde");
    assert_eq!(fix_text("keep\tthis\nline", Some(&c)), "keep\tthis\nline");
}

#[test]
fn terminal_escapes_removed() {
    let c = only(|c| c.remove_terminal_escapes = true);
    assert_eq!(fix_text("\u{1b}[31mred\u{1b}[0m plain", Some(&c)), "red plain");
    // a truncated sequence is left alone
    assert_eq!(fix_text("tail\u{1b}[31", Some(&c)), "tail\u{1b}[31");
}

#[test]
fn lossy_sequences_collapsed() {
    let c = only(|c| c.replace_lossy_sequences = true);
    assert_eq!(fix_text("x\u{c3}\u{fffd}y", Some(&c)), "x\u{fffd}y");
}

#[test]
fn byte_a0_restored() {
    let c = only(|c| c.restore_byte_a0 = true);
    assert_eq!(fix_text("\u{c3} a", Some(&c)), "\u{c3}\u{a0}a");
}

#[test]
fn inconsistent_utf8_decoded_in_place() {
    let c = only(|c| c.decode_inconsistent_utf8 = true);
    assert_eq!(fix_text("ok caf\u{c3}\u{a9} done", Some(&c)), "ok caf\u{e9} done");
}

#[test]
fn normalization_composes_combining_marks() {
    let c = only(|c| c.normalization = Some(plsfix::Normalization::Nfc));
    assert_eq!(fix_text("e\u{301}", Some(&c)), "\u{e9}");
    let r = fix_and_explain("e\u{301}", true, Some(&c));
    let steps = r.steps.unwrap();
    assert_eq!(steps.len(), 1);
    assert_eq!(steps[0].transformation, "normalization");
}

#[test]
fn normalization_decomposes_under_nfd() {
    let c = only(|c| c.normalization = Some(plsfix::Normalization::Nfd));
    assert_eq!(fix_text("\u{e9}", Some(&c)), "e\u{301}");
}

#[test]
fn already_fixed_text_is_stable() {
    let s = "caf\u{c3}\u{a9} &amp; \u{2018}tea\u{2019}\r\n";
    let once = fix_text(s, None);
    let twice = fix_text(&once, None);
    assert_eq!(once, twice);
}

#[test]
fn pathological_input_returns_without_crash() {
    let mut nasty = String::new();
    nasty.push_str(&"&amp;".repeat(200));
    nasty.push_str(&"\u{c3}".repeat(50));
    nasty.push('\u{1b}');
    nasty.push('[');
    nasty.push_str(&"\u{fffd}\u{0}\u{9f}\u{2028}".repeat(30));
    let a = fix_text(&nasty, None);
    let b = fix_text(&nasty, None);
    assert_eq!(a, b);
}

#[test]
fn unescape_tristate_modes() {
    let auto = only(|c| c.unescape_html = UnescapeMode::Auto);
    assert_eq!(fix_text("&amp;", Some(&auto)), "&");
    assert_eq!(fix_text("no references here", Some(&auto)), "no references here");
    let off = only(|c| c.unescape_html = UnescapeMode::Off);
    assert_eq!(fix_text("&amp;", Some(&off)), "&amp;");
}
