//! The Unicode normalization stage. The four normalization forms are
//! computed by the `unicode-normalization` crate; each form's result is a
//! function of the input characters alone, so it is given a name that the
//! contracts speak of. ASCII text is already in every normalization form
//! and is returned as it is, without calling out.

use crate::config::Normalization;
use crate::textbuf::str_to_chars;
use unicode_normalization::UnicodeNormalization;
use vstd::prelude::*;
use vstd::utf8::is_ascii_chars;

verus! {

pub uninterp spec fn nfc_of(s: Seq<char>) -> Seq<char>;

pub uninterp spec fn nfd_of(s: Seq<char>) -> Seq<char>;

pub uninterp spec fn nfkc_of(s: Seq<char>) -> Seq<char>;

pub uninterp spec fn nfkd_of(s: Seq<char>) -> Seq<char>;

/// Relies on unicode_normalization's `nfc` on `&str`: canonical
/// decomposition followed by canonical composition, a function of the
/// characters alone.
#[verifier::external_body]
fn nfc_str(s: &str) -> (r: String)
    ensures
        r@ == nfc_of(s@),
{
    s.nfc().collect()
}

/// Relies on unicode_normalization's `nfd` on `&str`: canonical
/// decomposition, a function of the characters alone.
#[verifier::external_body]
fn nfd_str(s: &str) -> (r: String)
    ensures
        r@ == nfd_of(s@),
{
    s.nfd().collect()
}

/// Relies on unicode_normalization's `nfkc` on `&str`: compatibility
/// decomposition followed by canonical composition, a function of the
/// characters alone.
#[verifier::external_body]
fn nfkc_str(s: &str) -> (r: String)
    ensures
        r@ == nfkc_of(s@),
{
    s.nfkc().collect()
}

/// Relies on unicode_normalization's `nfkd` on `&str`: compatibility
/// decomposition, a function of the characters alone.
#[verifier::external_body]
fn nfkd_str(s: &str) -> (r: String)
    ensures
        r@ == nfkd_of(s@),
{
    s.nfkd().collect()
}

/// The chosen normalization form of `s`.
pub open spec fn spec_apply_norm(f: Normalization, s: Seq<char>) -> Seq<char> {
    match f {
        Normalization::Nfc => nfc_of(s),
        Normalization::Nfd => nfd_of(s),
        Normalization::Nfkc => nfkc_of(s),
        Normalization::Nfkd => nfkd_of(s),
    }
}

/// The normalization stage: the identity when no form is configured or
/// the text is pure ASCII (ASCII is already normalized in every form).
pub open spec fn spec_normalize(n: Option<Normalization>, s: Seq<char>) -> Seq<char> {
    match n {
        None => s,
        Some(f) => if is_ascii_chars(s) {
            s
        } else {
            spec_apply_norm(f, s)
        },
    }
}

pub proof fn lemma_char_ascii_range(c: char)
    requires
        (c as u32) <= 0x7F,
    ensures
        '\0' <= c <= '\u{7f}',
{
}

/// Whether every character of the buffer is ASCII.
fn all_ascii(v: &Vec<char>) -> (r: bool)
    ensures
        r == is_ascii_chars(v@),
{
    let mut i: usize = 0;
    while i < v.len()
        invariant
            i <= v.len(),
            forall|q: int| 0 <= q < i ==> '\0' <= #[trigger] v@[q] <= '\u{7f}',
        decreases v.len() - i,
    {
        if (v[i] as u32) > 0x7F {
            proof {
                assert(!('\0' <= v@[i as int] <= '\u{7f}'));
                assert(!is_ascii_chars(v@));
            }
            return false;
        }
        proof {
            lemma_char_ascii_range(v@[i as int]);
        }
        i = i + 1;
    }
    true
}

/// A fresh buffer holding the same characters.
pub(crate) fn copy_chars(v: &Vec<char>) -> (r: Vec<char>)
    ensures
        r@ == v@,
{
    let mut out: Vec<char> = Vec::new();
    crate::textbuf::append_chars(&mut out, v);
    proof {
        assert(Seq::<char>::empty() + v@ =~= v@);
    }
    out
}

/// Applies the configured normalization form, if any.
pub fn stage_normalize(n: Option<Normalization>, v: &Vec<char>) -> (r: Vec<char>)
    ensures
        r@ == spec_normalize(n, v@),
{
    match n {
        None => copy_chars(v),
        Some(f) => {
            if all_ascii(v) {
                copy_chars(v)
            } else {
                let st = crate::textbuf::chars_to_string(v);
                let normalized = match f {
                    Normalization::Nfc => nfc_str(st.as_str()),
                    Normalization::Nfd => nfd_str(st.as_str()),
                    Normalization::Nfkc => nfkc_str(st.as_str()),
                    Normalization::Nfkd => nfkd_str(st.as_str()),
                };
                str_to_chars(normalized.as_str())
            }
        },
    }
}

} // verus!
