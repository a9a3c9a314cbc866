//! Semantic versions: parsing `major.minor.patch` strings and bumping them.

use vstd::prelude::*;

use crate::text::{
    chars_of, parse_u32_chars, push_all, spec_ends_with, spec_parse_u32, spec_split,
    spec_u32_str, split_chars, str_ends_with, string_of, u32_chars,
};

verus! {

/// The three numeric parts of a `major.minor.patch` string, when each part is
/// a run of digits whose value fits in 32 bits.
pub open spec fn spec_semver(s: Seq<char>) -> Option<(nat, nat, nat)> {
    let parts = spec_split(s, '.');
    if parts.len() != 3 {
        None
    } else {
        match (spec_parse_u32(parts[0]), spec_parse_u32(parts[1]), spec_parse_u32(parts[2])) {
            (Some(a), Some(b), Some(c)) => if a <= u32::MAX && b <= u32::MAX && c <= u32::MAX {
                Some((a, b, c))
            } else {
                None
            },
            _ => None,
        }
    }
}

/// A version written back out as `major.minor.patch`.
pub open spec fn spec_semver_str(a: nat, b: nat, c: nat) -> Seq<char> {
    spec_u32_str(a) + seq!['.'] + spec_u32_str(b) + seq!['.'] + spec_u32_str(c)
}

/// What bumping a version yields: patch raises the last part, minor raises the
/// middle and zeroes the last, major raises the first and zeroes the rest.
/// None for an unparsable version, an unknown bump word, or a part that would
/// no longer fit in 32 bits.
pub open spec fn spec_increment(version: Seq<char>, bump: Seq<char>) -> Option<Seq<char>> {
    match spec_semver(version) {
        None => None,
        Some((a, b, c)) => {
            if bump == "patch"@ {
                if c + 1 <= u32::MAX {
                    Some(spec_semver_str(a, b, c + 1))
                } else {
                    None
                }
            } else if bump == "minor"@ {
                if b + 1 <= u32::MAX {
                    Some(spec_semver_str(a, b + 1, 0))
                } else {
                    None
                }
            } else if bump == "major"@ {
                if a + 1 <= u32::MAX {
                    Some(spec_semver_str(a + 1, 0, 0))
                } else {
                    None
                }
            } else {
                None
            }
        },
    }
}

/// The string content of an optional string.
pub open spec fn opt_string_view(o: Option<String>) -> Option<Seq<char>> {
    match o {
        Some(s) => Some(s@),
        None => None,
    }
}

fn format_semver(a: u32, b: u32, c: u32) -> (r: String)
    ensures
        r@ == spec_semver_str(a as nat, b as nat, c as nat),
{
    let mut out: Vec<char> = Vec::new();
    let da = u32_chars(a);
    push_all(&mut out, &da);
    out.push('.');
    let db = u32_chars(b);
    push_all(&mut out, &db);
    out.push('.');
    let dc = u32_chars(c);
    push_all(&mut out, &dc);
    proof {
        assert(out@ =~= spec_semver_str(a as nat, b as nat, c as nat));
    }
    string_of(&out)
}

/// Bumps a `major.minor.patch` version. A malformed version or an unknown
/// bump word yields None, never a guess.
pub fn increment_version(version: &str, bump_type: &str) -> (r: Option<String>)
    ensures
        opt_string_view(r) == spec_increment(version@, bump_type@),
{
    let v = chars_of(version);
    let parts = split_chars(&v, '.');
    if parts.len() != 3 {
        return None;
    }
    proof {
        assert(parts.deep_view()[0] == parts@[0]@);
        assert(parts.deep_view()[1] == parts@[1]@);
        assert(parts.deep_view()[2] == parts@[2]@);
    }
    let a = match parse_u32_chars(&parts[0]) {
        Some(x) => x,
        None => {
            return None;
        },
    };
    let b = match parse_u32_chars(&parts[1]) {
        Some(x) => x,
        None => {
            return None;
        },
    };
    let c = match parse_u32_chars(&parts[2]) {
        Some(x) => x,
        None => {
            return None;
        },
    };
    let bump = String::from_str(bump_type);
    let patch = String::from_str("patch");
    let minor = String::from_str("minor");
    let major = String::from_str("major");
    if bump.eq(&patch) {
        match c.checked_add(1) {
            Some(c2) => Some(format_semver(a, b, c2)),
            None => None,
        }
    } else if bump.eq(&minor) {
        match b.checked_add(1) {
            Some(b2) => Some(format_semver(a, b2, 0)),
            None => None,
        }
    } else if bump.eq(&major) {
        match a.checked_add(1) {
            Some(a2) => Some(format_semver(a2, 0, 0)),
            None => None,
        }
    } else {
        None
    }
}

/// The default pattern used to find a version in a file, chosen from the
/// file name's extension.
pub fn default_pattern_for_file(filename: &str) -> (r: &'static str)
    ensures
        spec_ends_with(filename@, ".toml"@) ==> r@ == "version\\s*=\\s*\"(\\d+\\.\\d+\\.\\d+)\""@,
        !spec_ends_with(filename@, ".toml"@) && spec_ends_with(filename@, ".json"@) ==> r@
            == "\"version\"\\s*:\\s*\"(\\d+\\.\\d+\\.\\d+)\""@,
        !spec_ends_with(filename@, ".toml"@) && !spec_ends_with(filename@, ".json"@)
            && spec_ends_with(filename@, ".php"@) ==> r@ == "Version:\\s*(\\d+\\.\\d+\\.\\d+)"@,
        !spec_ends_with(filename@, ".toml"@) && !spec_ends_with(filename@, ".json"@)
            && !spec_ends_with(filename@, ".php"@) ==> r@ == "(\\d+\\.\\d+\\.\\d+)"@,
{
    if str_ends_with(filename, ".toml") {
        "version\\s*=\\s*\"(\\d+\\.\\d+\\.\\d+)\""
    } else if str_ends_with(filename, ".json") {
        "\"version\"\\s*:\\s*\"(\\d+\\.\\d+\\.\\d+)\""
    } else if str_ends_with(filename, ".php") {
        "Version:\\s*(\\d+\\.\\d+\\.\\d+)"
    } else {
        "(\\d+\\.\\d+\\.\\d+)"
    }
}

/// Names what the regex engine yields for a pattern's first capture group on
/// some text: a function of the pattern and the text alone. None both for a
/// pattern that does not compile and for a text that does not match.
pub uninterp spec fn regex_first_capture(pattern: Seq<char>, content: Seq<char>) -> Option<
    Seq<char>,
>;

/// Relies on regex::Regex::new and regex::Regex::captures: the first capture
/// group of the first match, a function of the pattern and the content alone.
#[verifier::external_body]
pub fn parse_version(content: &str, pattern: &str) -> (r: Option<String>)
    ensures
        opt_string_view(r) == regex_first_capture(pattern@, content@),
{
    let re = regex::Regex::new(pattern).ok()?;
    re.captures(content).and_then(|caps| caps.get(1)).map(|m| m.as_str().to_string())
}

/// A pattern string with literal double backslashes collapsed to single ones.
pub open spec fn spec_unescape_backslashes(s: Seq<char>) -> Seq<char>
    decreases s.len(),
{
    if s.len() == 0 {
        Seq::empty()
    } else if s.len() >= 2 && s[0] == '\\' && s[1] == '\\' {
        seq!['\\'] + spec_unescape_backslashes(s.subrange(2, s.len() as int))
    } else {
        seq![s[0]] + spec_unescape_backslashes(s.drop_first())
    }
}

fn unescape_backslashes(v: &Vec<char>) -> (r: Vec<char>)
    ensures
        r@ == spec_unescape_backslashes(v@),
{
    let mut out: Vec<char> = Vec::new();
    let mut i: usize = 0;
    proof {
        assert(v@.subrange(0, v@.len() as int) =~= v@);
    }
    while i < v.len()
        invariant
            0 <= i <= v@.len(),
            spec_unescape_backslashes(v@) == out@ + spec_unescape_backslashes(
                v@.subrange(i as int, v@.len() as int),
            ),
        decreases v@.len() - i,
    {
        let ghost tail = v@.subrange(i as int, v@.len() as int);
        if i + 1 < v.len() && v[i] == '\\' && v[i + 1] == '\\' {
            out.push('\\');
            proof {
                assert(tail.len() >= 2 && tail[0] == '\\' && tail[1] == '\\');
                assert(tail.subrange(2, tail.len() as int) =~= v@.subrange(
                    i + 2,
                    v@.len() as int,
                ));
                assert(spec_unescape_backslashes(tail) == seq!['\\']
                    + spec_unescape_backslashes(v@.subrange(i + 2, v@.len() as int)));
                assert(out@ + spec_unescape_backslashes(v@.subrange(i + 2, v@.len() as int))
                    =~= spec_unescape_backslashes(v@));
            }
            i = i + 2;
        } else {
            let c = v[i];
            out.push(c);
            proof {
                assert(tail[0] == v@[i as int]);
                assert(tail.len() >= 1);
                assert(!(tail.len() >= 2 && tail[0] == '\\' && tail[1] == '\\'));
                assert(tail.drop_first() =~= v@.subrange(i + 1, v@.len() as int));
                assert(spec_unescape_backslashes(tail) == seq![tail[0]]
                    + spec_unescape_backslashes(v@.subrange(i + 1, v@.len() as int)));
                assert(out@ + spec_unescape_backslashes(v@.subrange(i + 1, v@.len() as int))
                    =~= spec_unescape_backslashes(v@));
            }
            i = i + 1;
        }
    }
    proof {
        assert(v@.subrange(i as int, v@.len() as int).len() == 0);
        assert(out@ =~= spec_unescape_backslashes(v@));
    }
    out
}

/// The pattern a component's version is read with: the configured pattern,
/// with doubled backslashes collapsed, or the plain `Version:` default.
pub open spec fn spec_component_pattern(pattern: Option<Seq<char>>) -> Seq<char> {
    match pattern {
        Some(p) => spec_unescape_backslashes(p),
        None => "Version:\\s*(\\d+\\.\\d+\\.\\d+)"@,
    }
}

/// Reads a component's version out of file content, with the configured or
/// default pattern.
pub fn parse_component_version(content: &str, pattern: Option<&str>) -> (r: Option<String>)
    ensures
        opt_string_view(r) == regex_first_capture(
            spec_component_pattern(
                match pattern {
                    Some(p) => Some(p@),
                    None => None,
                },
            ),
            content@,
        ),
{
    match pattern {
        Some(p) => {
            let v = chars_of(p);
            let un = unescape_backslashes(&v);
            let ps = string_of(&un);
            parse_version(content, ps.as_str())
        },
        None => parse_version(content, "Version:\\s*(\\d+\\.\\d+\\.\\d+)"),
    }
}

} // verus!
