//! String comparison and normalization for identifiers and documentation keys.

use vstd::prelude::*;

use crate::text::{
    chars_of, lex_cmp_chars, lower_of, lowercase, replace_char, spec_lex_cmp, spec_replace_char,
    spec_trim, string_of, trim_str,
};

verus! {

/// The canonical form of an identifier: trimmed, then lowercased.
pub fn normalize_identifier(input: &str) -> (r: String)
    ensures
        r@ == lower_of(spec_trim(input@)),
{
    let t = trim_str(input);
    lowercase(t.as_str())
}

/// Whether two identifiers are the same once trimmed and lowercased.
pub fn identifier_eq(a: &str, b: &str) -> (r: bool)
    ensures
        r == (lower_of(spec_trim(a@)) == lower_of(spec_trim(b@))),
{
    let na = normalize_identifier(a);
    let nb = normalize_identifier(b);
    na.eq(&nb)
}

/// The canonical form of one documentation topic segment: trimmed, lowercased,
/// with spaces and tabs turned into dashes.
pub fn normalize_doc_segment(input: &str) -> (r: String)
    ensures
        r@ == spec_replace_char(spec_replace_char(lower_of(spec_trim(input@)), ' ', '-'), '\t', '-'),
{
    let low = normalize_identifier(input);
    let v = chars_of(low.as_str());
    let pass1 = replace_char(&v, ' ', '-');
    let pass2 = replace_char(&pass1, '\t', '-');
    string_of(&pass2)
}

/// Orders two strings by their lowercase forms, code point by code point.
pub fn cmp_case_insensitive(a: &str, b: &str) -> (r: core::cmp::Ordering)
    ensures
        r == spec_lex_cmp(lower_of(a@), lower_of(b@)),
{
    let la = lowercase(a);
    let lb = lowercase(b);
    let va = chars_of(la.as_str());
    let vb = chars_of(lb.as_str());
    lex_cmp_chars(&va, &vb)
}

} // verus!
