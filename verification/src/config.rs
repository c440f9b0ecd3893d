//! Configuration and result types for the repair pipeline.

use vstd::prelude::*;

verus! {

/// Which Unicode normalization form the final stage applies.
#[derive(Clone, Copy, Debug, PartialEq, Eq, Structural)]
pub enum Normalization {
    Nfc,
    Nfd,
    Nfkc,
    Nfkd,
}

/// Whether the HTML-unescape stage runs: forced on, forced off, or
/// automatic. Under `Auto` the stage scans the text and rewrites only
/// well-formed character references, so text without any is unchanged,
/// exactly as if their absence had been detected up front.
#[derive(Clone, Copy, Debug, PartialEq, Eq, Structural)]
pub enum UnescapeMode {
    On,
    Off,
    Auto,
}

/// One flag per repair stage, plus the normalization form and the bound on
/// how long a text may be before the encoding-repair loop refuses to
/// re-decode it. The configuration is read-only during a fix call.
#[derive(Clone, Copy, Debug, PartialEq, Eq, Structural)]
pub struct TextFixerConfig {
    pub unescape_html: UnescapeMode,
    pub remove_terminal_escapes: bool,
    pub fix_encoding: bool,
    pub restore_byte_a0: bool,
    pub replace_lossy_sequences: bool,
    pub decode_inconsistent_utf8: bool,
    pub fix_c1_controls: bool,
    pub fix_latin_ligatures: bool,
    pub fix_character_width: bool,
    pub uncurl_quotes: bool,
    pub fix_line_breaks: bool,
    pub remove_control_chars: bool,
    pub normalization: Option<Normalization>,
    pub max_decode_length: i32,
}

/// The default configuration: every stage enabled, NFC normalization, and a
/// generous but finite re-decoding bound.
pub open spec fn spec_default_config() -> TextFixerConfig {
    TextFixerConfig {
        unescape_html: UnescapeMode::Auto,
        remove_terminal_escapes: true,
        fix_encoding: true,
        restore_byte_a0: true,
        replace_lossy_sequences: true,
        decode_inconsistent_utf8: true,
        fix_c1_controls: true,
        fix_latin_ligatures: true,
        fix_character_width: true,
        uncurl_quotes: true,
        fix_line_breaks: true,
        remove_control_chars: true,
        normalization: Some(Normalization::Nfc),
        max_decode_length: 1000000,
    }
}

impl Default for TextFixerConfig {
    fn default() -> (r: Self)
        ensures
            r == spec_default_config(),
    {
        TextFixerConfig {
            unescape_html: UnescapeMode::Auto,
            remove_terminal_escapes: true,
            fix_encoding: true,
            restore_byte_a0: true,
            replace_lossy_sequences: true,
            decode_inconsistent_utf8: true,
            fix_c1_controls: true,
            fix_latin_ligatures: true,
            fix_character_width: true,
            uncurl_quotes: true,
            fix_line_breaks: true,
            remove_control_chars: true,
            normalization: Some(Normalization::Nfc),
            max_decode_length: 1000000,
        }
    }
}

/// A configuration with every stage switched off; useful as a baseline when
/// enabling stages one at a time.
pub open spec fn spec_all_off_config() -> TextFixerConfig {
    TextFixerConfig {
        unescape_html: UnescapeMode::Off,
        remove_terminal_escapes: false,
        fix_encoding: false,
        restore_byte_a0: false,
        replace_lossy_sequences: false,
        decode_inconsistent_utf8: false,
        fix_c1_controls: false,
        fix_latin_ligatures: false,
        fix_character_width: false,
        uncurl_quotes: false,
        fix_line_breaks: false,
        remove_control_chars: false,
        normalization: None,
        max_decode_length: 0,
    }
}

impl TextFixerConfig {
    /// Every stage off: the pipeline returns its input unchanged.
    pub fn all_off() -> (r: Self)
        ensures
            r == spec_all_off_config(),
    {
        TextFixerConfig {
            unescape_html: UnescapeMode::Off,
            remove_terminal_escapes: false,
            fix_encoding: false,
            restore_byte_a0: false,
            replace_lossy_sequences: false,
            decode_inconsistent_utf8: false,
            fix_c1_controls: false,
            fix_latin_ligatures: false,
            fix_character_width: false,
            uncurl_quotes: false,
            fix_line_breaks: false,
            remove_control_chars: false,
            normalization: None,
            max_decode_length: 0,
        }
    }
}

/// One record of the explanation trace: the stable identifier of a stage
/// (or of one encoding-repair iteration) that changed the text.
#[derive(Clone, Debug)]
pub struct ExplanationStep {
    pub transformation: String,
}

impl View for ExplanationStep {
    type V = Seq<char>;

    open spec fn view(&self) -> Seq<char> {
        self.transformation@
    }
}

/// The repaired text together with the optional explanation trace, in
/// application order. `steps` is `None` when no explanation was requested.
#[derive(Clone, Debug)]
pub struct ExplainedText {
    pub text: String,
    pub steps: Option<Vec<ExplanationStep>>,
}

} // verus!
