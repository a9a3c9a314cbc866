//! Shell escaping and command composition.

use vstd::prelude::*;

use crate::error::{Error, ErrorCode};
use crate::text::{
    chars_of, replace_char_with, spec_replace, spec_trim, string_of, trim_chars,
};

verus! {

/// The escape pass applied before a string is placed in a double-quoted
/// context: `"` becomes `\"`, then every backslash is doubled.
pub open spec fn spec_escape_single_quotes(s: Seq<char>) -> Seq<char> {
    spec_replace(spec_replace(s, '"', seq!['\\', '"']), '\\', seq!['\\', '\\'])
}

pub fn escape_single_quotes(input: &str) -> (r: String)
    ensures
        r@ == spec_escape_single_quotes(input@),
{
    let v = chars_of(input);
    let mut quote_rep: Vec<char> = Vec::new();
    quote_rep.push('\\');
    quote_rep.push('"');
    let pass1 = replace_char_with(&v, '"', &quote_rep);
    let mut slash_rep: Vec<char> = Vec::new();
    slash_rep.push('\\');
    slash_rep.push('\\');
    let pass2 = replace_char_with(&pass1, '\\', &slash_rep);
    proof {
        assert(quote_rep@ =~= seq!['\\', '"']);
        assert(slash_rep@ =~= seq!['\\', '\\']);
    }
    string_of(&pass2)
}

/// Escapes double quotes for a shell word that will sit inside double quotes.
pub fn escape_shell_single_quoted(input: &str) -> (r: String)
    ensures
        r@ == spec_replace(input@, '"', seq!['\\', '"']),
{
    let v = chars_of(input);
    let mut quote_rep: Vec<char> = Vec::new();
    quote_rep.push('\\');
    quote_rep.push('"');
    let out = replace_char_with(&v, '"', &quote_rep);
    proof {
        assert(quote_rep@ =~= seq!['\\', '"']);
    }
    string_of(&out)
}

/// How a single-quoted shell word escapes an embedded single quote.
pub open spec fn spec_sq_escape(s: Seq<char>) -> Seq<char> {
    spec_replace(s, '\'', seq!['\'', '\\', '\'', '\''])
}

/// A path wrapped in single quotes, with embedded single quotes escaped.
pub open spec fn spec_quote_path(s: Seq<char>) -> Seq<char> {
    seq!['\''] + spec_sq_escape(s) + seq!['\'']
}

/// Quotes a path for use in a shell command.
pub fn quote_path(path: &str) -> (r: String)
    ensures
        r@ == spec_quote_path(path@),
{
    let v = chars_of(path);
    let mut rep: Vec<char> = Vec::new();
    rep.push('\'');
    rep.push('\\');
    rep.push('\'');
    rep.push('\'');
    let escaped = replace_char_with(&v, '\'', &rep);
    let mut out: Vec<char> = Vec::new();
    out.push('\'');
    crate::text::push_all(&mut out, &escaped);
    out.push('\'');
    proof {
        assert(rep@ =~= seq!['\'', '\\', '\'', '\'']);
        assert(out@ =~= spec_quote_path(path@));
    }
    string_of(&out)
}

/// The command that changes into `dir` and then runs `command`, both trimmed.
pub open spec fn spec_cd_and(dir: Seq<char>, command: Seq<char>) -> Seq<char> {
    "cd '"@ + spec_sq_escape(spec_trim(dir)) + "' && "@ + spec_trim(command)
}

/// Builds `cd '<dir>' && <command>`; the directory's single quotes are escaped.
/// Rejects an empty directory or command after trimming.
pub fn cd_and(dir: &str, command: &str) -> (r: Result<String, Error>)
    ensures
        match r {
            Ok(s) => spec_trim(dir@).len() > 0 && spec_trim(command@).len() > 0 && s@
                == spec_cd_and(dir@, command@),
            Err(e) => (spec_trim(dir@).len() == 0 || spec_trim(command@).len() == 0)
                && e.code == ErrorCode::Config,
        },
{
    let dv = chars_of(dir);
    let dt = trim_chars(&dv);
    let cv = chars_of(command);
    let ct = trim_chars(&cv);

    if dt.len() == 0 {
        return Err(Error::config(String::from_str("Directory cannot be empty")));
    }
    if ct.len() == 0 {
        return Err(Error::config(String::from_str("Command cannot be empty")));
    }

    let mut rep: Vec<char> = Vec::new();
    rep.push('\'');
    rep.push('\\');
    rep.push('\'');
    rep.push('\'');
    let escaped = replace_char_with(&dt, '\'', &rep);

    let mut out = String::from_str("cd '");
    let esc_str = string_of(&escaped);
    out.append(esc_str.as_str());
    out.append("' && ");
    let ct_str = string_of(&ct);
    out.append(ct_str.as_str());
    proof {
        assert(rep@ =~= seq!['\'', '\\', '\'', '\'']);
        assert(out@ =~= spec_cd_and(dir@, command@));
    }
    Ok(out)
}

} // verus!
