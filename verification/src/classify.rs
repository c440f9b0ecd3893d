//! Per-codepoint classification and substitution tables: curly quotes,
//! full-width forms, Latin ligatures, C0/C1 controls, and the
//! Windows-1252 byte table the mojibake heuristics are built on.
//!
//! Every predicate and map here is total: an unmapped codepoint is handed
//! back unchanged, never rejected.

use vstd::prelude::*;

verus! {

/// Curly and other typographic quote codepoints, mapped to the straight
/// ASCII quote they stand for; every other codepoint maps to itself.
pub open spec fn spec_uncurl_char(c: char) -> char {
    if 0x2018 <= c as u32 && c as u32 <= 0x201B {
        '\''
    } else if 0x201C <= c as u32 && c as u32 <= 0x201F {
        '"'
    } else {
        c
    }
}

pub fn uncurl_char(c: char) -> (r: char)
    ensures
        r == spec_uncurl_char(c),
{
    let v = c as u32;
    if 0x2018 <= v && v <= 0x201B {
        '\''
    } else if 0x201C <= v && v <= 0x201F {
        '"'
    } else {
        c
    }
}

/// Full-width forms of the printable ASCII range, and the ideographic
/// space, mapped to their ASCII equivalents.
pub open spec fn spec_width_char(c: char) -> char {
    if 0xFF01 <= c as u32 && c as u32 <= 0xFF5E {
        ((c as u32 - 0xFEE0) as u8) as char
    } else if c as u32 == 0x3000 {
        ' '
    } else {
        c
    }
}

pub fn width_char(c: char) -> (r: char)
    ensures
        r == spec_width_char(c),
{
    let v = c as u32;
    if 0xFF01 <= v && v <= 0xFF5E {
        ((v - 0xFEE0) as u8) as char
    } else if v == 0x3000 {
        ' '
    } else {
        c
    }
}

/// The character Windows-1252 assigns to a byte. Bytes the encoding leaves
/// undefined keep their Latin-1 reading, so the map is total.
pub open spec fn spec_cp1252_char_of_byte(b: u8) -> char {
    if b == 0x80 {
        '\u{20AC}'
    } else if b == 0x82 {
        '\u{201A}'
    } else if b == 0x83 {
        '\u{0192}'
    } else if b == 0x84 {
        '\u{201E}'
    } else if b == 0x85 {
        '\u{2026}'
    } else if b == 0x86 {
        '\u{2020}'
    } else if b == 0x87 {
        '\u{2021}'
    } else if b == 0x88 {
        '\u{02C6}'
    } else if b == 0x89 {
        '\u{2030}'
    } else if b == 0x8A {
        '\u{0160}'
    } else if b == 0x8B {
        '\u{2039}'
    } else if b == 0x8C {
        '\u{0152}'
    } else if b == 0x8E {
        '\u{017D}'
    } else if b == 0x91 {
        '\u{2018}'
    } else if b == 0x92 {
        '\u{2019}'
    } else if b == 0x93 {
        '\u{201C}'
    } else if b == 0x94 {
        '\u{201D}'
    } else if b == 0x95 {
        '\u{2022}'
    } else if b == 0x96 {
        '\u{2013}'
    } else if b == 0x97 {
        '\u{2014}'
    } else if b == 0x98 {
        '\u{02DC}'
    } else if b == 0x99 {
        '\u{2122}'
    } else if b == 0x9A {
        '\u{0161}'
    } else if b == 0x9B {
        '\u{203A}'
    } else if b == 0x9C {
        '\u{0153}'
    } else if b == 0x9E {
        '\u{017E}'
    } else if b == 0x9F {
        '\u{0178}'
    } else {
        b as char
    }
}

pub fn cp1252_char_of_byte(b: u8) -> (r: char)
    ensures
        r == spec_cp1252_char_of_byte(b),
{
    if b == 0x80 {
        '\u{20AC}'
    } else if b == 0x82 {
        '\u{201A}'
    } else if b == 0x83 {
        '\u{0192}'
    } else if b == 0x84 {
        '\u{201E}'
    } else if b == 0x85 {
        '\u{2026}'
    } else if b == 0x86 {
        '\u{2020}'
    } else if b == 0x87 {
        '\u{2021}'
    } else if b == 0x88 {
        '\u{02C6}'
    } else if b == 0x89 {
        '\u{2030}'
    } else if b == 0x8A {
        '\u{0160}'
    } else if b == 0x8B {
        '\u{2039}'
    } else if b == 0x8C {
        '\u{0152}'
    } else if b == 0x8E {
        '\u{017D}'
    } else if b == 0x91 {
        '\u{2018}'
    } else if b == 0x92 {
        '\u{2019}'
    } else if b == 0x93 {
        '\u{201C}'
    } else if b == 0x94 {
        '\u{201D}'
    } else if b == 0x95 {
        '\u{2022}'
    } else if b == 0x96 {
        '\u{2013}'
    } else if b == 0x97 {
        '\u{2014}'
    } else if b == 0x98 {
        '\u{02DC}'
    } else if b == 0x99 {
        '\u{2122}'
    } else if b == 0x9A {
        '\u{0161}'
    } else if b == 0x9B {
        '\u{203A}'
    } else if b == 0x9C {
        '\u{0153}'
    } else if b == 0x9E {
        '\u{017E}'
    } else if b == 0x9F {
        '\u{0178}'
    } else {
        b as char
    }
}

/// The byte Windows-1252 uses for a character, if there is one. Characters
/// up to U+00FF that have no special table entry keep their Latin-1 byte.
pub open spec fn spec_cp1252_byte_of_char(c: char) -> Option<u8> {
    if c == '\u{20AC}' {
        Some(0x80u8)
    } else if c == '\u{201A}' {
        Some(0x82u8)
    } else if c == '\u{0192}' {
        Some(0x83u8)
    } else if c == '\u{201E}' {
        Some(0x84u8)
    } else if c == '\u{2026}' {
        Some(0x85u8)
    } else if c == '\u{2020}' {
        Some(0x86u8)
    } else if c == '\u{2021}' {
        Some(0x87u8)
    } else if c == '\u{02C6}' {
        Some(0x88u8)
    } else if c == '\u{2030}' {
        Some(0x89u8)
    } else if c == '\u{0160}' {
        Some(0x8Au8)
    } else if c == '\u{2039}' {
        Some(0x8Bu8)
    } else if c == '\u{0152}' {
        Some(0x8Cu8)
    } else if c == '\u{017D}' {
        Some(0x8Eu8)
    } else if c == '\u{2018}' {
        Some(0x91u8)
    } else if c == '\u{2019}' {
        Some(0x92u8)
    } else if c == '\u{201C}' {
        Some(0x93u8)
    } else if c == '\u{201D}' {
        Some(0x94u8)
    } else if c == '\u{2022}' {
        Some(0x95u8)
    } else if c == '\u{2013}' {
        Some(0x96u8)
    } else if c == '\u{2014}' {
        Some(0x97u8)
    } else if c == '\u{02DC}' {
        Some(0x98u8)
    } else if c == '\u{2122}' {
        Some(0x99u8)
    } else if c == '\u{0161}' {
        Some(0x9Au8)
    } else if c == '\u{203A}' {
        Some(0x9Bu8)
    } else if c == '\u{0153}' {
        Some(0x9Cu8)
    } else if c == '\u{017E}' {
        Some(0x9Eu8)
    } else if c == '\u{0178}' {
        Some(0x9Fu8)
    } else if c as u32 <= 0xFF {
        Some(c as u8)
    } else {
        None
    }
}

pub fn cp1252_byte_of_char(c: char) -> (r: Option<u8>)
    ensures
        r == spec_cp1252_byte_of_char(c),
{
    if c == '\u{20AC}' {
        Some(0x80u8)
    } else if c == '\u{201A}' {
        Some(0x82u8)
    } else if c == '\u{0192}' {
        Some(0x83u8)
    } else if c == '\u{201E}' {
        Some(0x84u8)
    } else if c == '\u{2026}' {
        Some(0x85u8)
    } else if c == '\u{2020}' {
        Some(0x86u8)
    } else if c == '\u{2021}' {
        Some(0x87u8)
    } else if c == '\u{02C6}' {
        Some(0x88u8)
    } else if c == '\u{2030}' {
        Some(0x89u8)
    } else if c == '\u{0160}' {
        Some(0x8Au8)
    } else if c == '\u{2039}' {
        Some(0x8Bu8)
    } else if c == '\u{0152}' {
        Some(0x8Cu8)
    } else if c == '\u{017D}' {
        Some(0x8Eu8)
    } else if c == '\u{2018}' {
        Some(0x91u8)
    } else if c == '\u{2019}' {
        Some(0x92u8)
    } else if c == '\u{201C}' {
        Some(0x93u8)
    } else if c == '\u{201D}' {
        Some(0x94u8)
    } else if c == '\u{2022}' {
        Some(0x95u8)
    } else if c == '\u{2013}' {
        Some(0x96u8)
    } else if c == '\u{2014}' {
        Some(0x97u8)
    } else if c == '\u{02DC}' {
        Some(0x98u8)
    } else if c == '\u{2122}' {
        Some(0x99u8)
    } else if c == '\u{0161}' {
        Some(0x9Au8)
    } else if c == '\u{203A}' {
        Some(0x9Bu8)
    } else if c == '\u{0153}' {
        Some(0x9Cu8)
    } else if c == '\u{017E}' {
        Some(0x9Eu8)
    } else if c == '\u{0178}' {
        Some(0x9Fu8)
    } else if (c as u32) <= 0xFF {
        Some(c as u8)
    } else {
        None
    }
}

/// A lone C1 control read as the Windows-1252 character of the same byte;
/// anything outside U+0080..U+009F is untouched.
pub open spec fn spec_c1_char(c: char) -> char {
    if 0x80 <= c as u32 && c as u32 <= 0x9F {
        spec_cp1252_char_of_byte(c as u8)
    } else {
        c
    }
}

pub fn c1_char(c: char) -> (r: char)
    ensures
        r == spec_c1_char(c),
{
    let v = c as u32;
    if 0x80 <= v && v <= 0x9F {
        cp1252_char_of_byte(v as u8)
    } else {
        c
    }
}

/// The multi-character expansion of a Latin ligature codepoint; any other
/// codepoint expands to itself.
pub open spec fn spec_lig_expansion(c: char) -> Seq<char> {
    if c == '\u{0132}' {
        seq!['I', 'J']
    } else if c == '\u{0133}' {
        seq!['i', 'j']
    } else if c == '\u{FB00}' {
        seq!['f', 'f']
    } else if c == '\u{FB01}' {
        seq!['f', 'i']
    } else if c == '\u{FB02}' {
        seq!['f', 'l']
    } else if c == '\u{FB03}' {
        seq!['f', 'f', 'i']
    } else if c == '\u{FB04}' {
        seq!['f', 'f', 'l']
    } else if c == '\u{FB05}' {
        seq!['s', 't']
    } else if c == '\u{FB06}' {
        seq!['s', 't']
    } else {
        seq![c]
    }
}

/// Appends the expansion of `c` to `out`.
pub fn push_lig_expansion(c: char, out: &mut Vec<char>)
    ensures
        final(out)@ == old(out)@ + spec_lig_expansion(c),
{
    if c == '\u{0132}' {
        out.push('I');
        out.push('J');
    } else if c == '\u{0133}' {
        out.push('i');
        out.push('j');
    } else if c == '\u{FB00}' {
        out.push('f');
        out.push('f');
    } else if c == '\u{FB01}' {
        out.push('f');
        out.push('i');
    } else if c == '\u{FB02}' {
        out.push('f');
        out.push('l');
    } else if c == '\u{FB03}' {
        out.push('f');
        out.push('f');
        out.push('i');
    } else if c == '\u{FB04}' {
        out.push('f');
        out.push('f');
        out.push('l');
    } else if c == '\u{FB05}' || c == '\u{FB06}' {
        out.push('s');
        out.push('t');
    } else {
        out.push(c);
    }
    proof {
        assert(out@ =~= old(out)@ + spec_lig_expansion(c));
    }
}

/// Controls the control-stripping stage removes: C0 controls other than
/// tab, line feed and carriage return, the DEL character, and the
/// zero-width no-break space left over from byte-order marks.
pub open spec fn spec_is_removed_control(c: char) -> bool {
    ||| (c as u32) < 0x20 && c != '\t' && c != '\n' && c != '\r'
    ||| c as u32 == 0x7F
    ||| c as u32 == 0xFEFF
}

pub fn is_removed_control(c: char) -> (r: bool)
    ensures
        r == spec_is_removed_control(c),
{
    let v = c as u32;
    (v < 0x20 && c != '\t' && c != '\n' && c != '\r') || v == 0x7F || v == 0xFEFF
}

/// Leading bytes of multi-byte UTF-8 sequences, seen as the characters a
/// Latin-1 mis-decoding would turn them into.
pub open spec fn spec_is_mojibake_lead(c: char) -> bool {
    0xC2 <= c as u32 && c as u32 <= 0xF4
}

pub fn is_mojibake_lead(c: char) -> (r: bool)
    ensures
        r == spec_is_mojibake_lead(c),
{
    let v = c as u32;
    0xC2 <= v && v <= 0xF4
}

/// Characters whose Windows-1252 byte lies in the UTF-8 continuation
/// range: what follows a mis-decoded leading byte in common mojibake.
pub open spec fn spec_is_mojibake_tail(c: char) -> bool {
    match spec_cp1252_byte_of_char(c) {
        Some(b) => 0x80 <= b && b <= 0xBF,
        None => false,
    }
}

pub fn is_mojibake_tail(c: char) -> (r: bool)
    ensures
        r == spec_is_mojibake_tail(c),
{
    match cp1252_byte_of_char(c) {
        Some(b) => 0x80 <= b && b <= 0xBF,
        None => false,
    }
}

/// Characters whose Windows-1252 byte is a high byte: the material the
/// embedded-UTF-8 stage tries to re-decode.
pub open spec fn spec_is_high_1252(c: char) -> bool {
    match spec_cp1252_byte_of_char(c) {
        Some(b) => b >= 0x80,
        None => false,
    }
}

pub fn is_high_1252(c: char) -> (r: bool)
    ensures
        r == spec_is_high_1252(c),
{
    match cp1252_byte_of_char(c) {
        Some(b) => b >= 0x80,
        None => false,
    }
}

/// Printable ASCII: the material no character-level repair stage has any
/// business touching.
pub open spec fn spec_is_printable_ascii_char(c: char) -> bool {
    0x20 <= c as u32 && c as u32 <= 0x7E
}

pub open spec fn spec_printable_ascii(s: Seq<char>) -> bool {
    forall|i: int| 0 <= i < s.len() ==> spec_is_printable_ascii_char(#[trigger] s[i])
}

} // verus!
