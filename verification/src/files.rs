//! Remote file operations: the exact shell commands each operation runs, and
//! the parsers for what comes back. Executing the commands is the caller's
//! job.

use vstd::prelude::*;

use crate::error::{Error, ErrorCode};
use crate::shell::{quote_path, spec_quote_path};
use vstd::string::StringSliceAdditionalSpecFns;
use crate::text::{
    chars_of, is_whitespace_char, lemma_lex_cmp_flip, lemma_lex_cmp_trans, lemma_parse_u32_bad_digit,
    lemma_parse_u32_grows, lines_of, lower_of, lowercase, parse_u32_chars, spec_is_digit,
    spec_digit_val, spec_join, spec_lex_cmp, spec_lines, spec_parse_u32, spec_starts_with,
    spec_trim, spec_u32_str, starts_with_chars, string_of, trim_chars, u32_chars,
    whitespace_char,
};

verus! {

/// One entry of a remote directory listing.
#[derive(Debug, Clone)]
pub struct FileEntry {
    pub name: String,
    pub path: String,
    pub is_directory: bool,
    pub size: Option<i64>,
    pub permissions: String,
}

/// A directory listing.
#[derive(Debug, Clone)]
pub struct ListResult {
    pub base_path: Option<String>,
    pub path: String,
    pub entries: Vec<FileEntry>,
}

/// A file read.
#[derive(Debug, Clone)]
pub struct ReadResult {
    pub base_path: Option<String>,
    pub path: String,
    pub content: String,
}

/// A file write.
#[derive(Debug, Clone)]
pub struct WriteResult {
    pub base_path: Option<String>,
    pub path: String,
    pub bytes_written: usize,
}

/// A deletion.
#[derive(Debug, Clone)]
pub struct DeleteResult {
    pub base_path: Option<String>,
    pub path: String,
    pub recursive: bool,
}

/// A rename.
#[derive(Debug, Clone)]
pub struct RenameResult {
    pub base_path: Option<String>,
    pub old_path: String,
    pub new_path: String,
}

/// A path search.
#[derive(Debug, Clone)]
pub struct FindResult {
    pub base_path: Option<String>,
    pub path: String,
    pub pattern: Option<String>,
    pub matches: Vec<String>,
}

/// One grep hit.
#[derive(Debug, Clone)]
pub struct GrepMatch {
    pub file: String,
    pub line: u32,
    pub content: String,
}

/// A content search.
#[derive(Debug, Clone)]
pub struct GrepResult {
    pub base_path: Option<String>,
    pub path: String,
    pub pattern: String,
    pub matches: Vec<GrepMatch>,
}

/// A path joined under a base: an absolute path stands alone, a relative one
/// is put under the base.
pub open spec fn spec_join_remote(base: Seq<char>, path: Seq<char>) -> Seq<char> {
    if path.len() > 0 && path[0] == '/' {
        path
    } else if base.len() > 0 && base[base.len() - 1] == '/' {
        base + path
    } else {
        base + "/"@ + path
    }
}

/// Joins a path under a project's base path.
pub fn join_remote_path(base: &str, path: &str) -> (r: String)
    ensures
        r@ == spec_join_remote(base@, path@),
{
    let pv = chars_of(path);
    if pv.len() > 0 && pv[0] == '/' {
        return String::from_str(path);
    }
    let bv = chars_of(base);
    if bv.len() > 0 && bv[bv.len() - 1] == '/' {
        let mut out = String::from_str(base);
        out.append(path);
        out
    } else {
        let mut out = String::from_str(base);
        out.append("/");
        out.append(path);
        out
    }
}

/// The words of a line: maximal runs of non-whitespace.
pub open spec fn ws_core(s: Seq<char>, cur: Seq<char>, acc: Seq<Seq<char>>) -> Seq<Seq<char>>
    decreases s.len(),
{
    if s.len() == 0 {
        if cur.len() > 0 {
            acc.push(cur)
        } else {
            acc
        }
    } else if is_whitespace_char(s[0]) {
        if cur.len() > 0 {
            ws_core(s.drop_first(), Seq::empty(), acc.push(cur))
        } else {
            ws_core(s.drop_first(), Seq::empty(), acc)
        }
    } else {
        ws_core(s.drop_first(), cur.push(s[0]), acc)
    }
}

pub open spec fn spec_words(s: Seq<char>) -> Seq<Seq<char>> {
    ws_core(s, Seq::empty(), Seq::empty())
}

/// Splits a line into whitespace-separated words.
pub fn split_words(v: &Vec<char>) -> (r: Vec<Vec<char>>)
    ensures
        r.deep_view() == spec_words(v@),
{
    let mut acc: Vec<Vec<char>> = Vec::new();
    let mut cur: Vec<char> = Vec::new();
    let mut i: usize = 0;
    let ghost s = v@;
    proof {
        assert(s.subrange(0, s.len() as int) =~= s);
        assert(cur@ =~= Seq::<char>::empty());
        assert(acc.deep_view() =~= Seq::<Seq<char>>::empty());
    }
    while i < v.len()
        invariant
            0 <= i <= s.len(),
            s == v@,
            spec_words(s) == ws_core(s.subrange(i as int, s.len() as int), cur@, acc.deep_view()),
        decreases s.len() - i,
    {
        let ghost tail = s.subrange(i as int, s.len() as int);
        let ghost tail2 = s.subrange(i + 1, s.len() as int);
        proof {
            assert(tail.len() > 0);
            assert(tail[0] == s[i as int]);
            assert(tail.drop_first() =~= tail2);
        }
        let c = v[i];
        if whitespace_char(c) {
            if cur.len() > 0 {
                let ghost old_acc = acc.deep_view();
                let ghost old_cur = cur@;
                let word = cur;
                acc.push(word);
                cur = Vec::new();
                proof {
                    assert(acc.deep_view() =~~= old_acc.push(old_cur));
                    assert(cur@ =~= Seq::<char>::empty());
                    assert(ws_core(tail, old_cur, old_acc) == ws_core(
                        tail2,
                        Seq::empty(),
                        old_acc.push(old_cur),
                    ));
                }
            } else {
                proof {
                    assert(cur@ =~= Seq::<char>::empty());
                    assert(ws_core(tail, cur@, acc.deep_view()) == ws_core(
                        tail2,
                        Seq::empty(),
                        acc.deep_view(),
                    ));
                }
            }
        } else {
            let ghost old_cur = cur@;
            cur.push(c);
            proof {
                assert(ws_core(tail, old_cur, acc.deep_view()) == ws_core(
                    tail2,
                    old_cur.push(s[i as int]),
                    acc.deep_view(),
                ));
            }
        }
        proof {
            assert(spec_words(s) == ws_core(tail2, cur@, acc.deep_view()));
        }
        i = i + 1;
    }
    if cur.len() > 0 {
        let word = cur;
        acc.push(word);
    }
    proof {
        assert(s.subrange(i as int, s.len() as int).len() == 0);
        assert(acc.deep_view() =~~= spec_words(s));
    }
    acc
}

/// Every word the splitter yields is non-empty: a run is only ever recorded
/// once it has at least one character.
proof fn lemma_words_nonempty(s: Seq<char>, cur: Seq<char>, acc: Seq<Seq<char>>)
    requires
        forall|k: int| 0 <= k < acc.len() ==> (#[trigger] acc[k]).len() > 0,
    ensures
        forall|k: int|
            0 <= k < ws_core(s, cur, acc).len() ==> (#[trigger] ws_core(s, cur, acc)[k]).len()
                > 0,
    decreases s.len(),
{
    if s.len() == 0 {
        if cur.len() > 0 {
            assert(forall|k: int|
                0 <= k < acc.push(cur).len() ==> (#[trigger] acc.push(cur)[k]).len() > 0);
        }
    } else if is_whitespace_char(s[0]) {
        if cur.len() > 0 {
            assert(forall|k: int|
                0 <= k < acc.push(cur).len() ==> (#[trigger] acc.push(cur)[k]).len() > 0);
            lemma_words_nonempty(s.drop_first(), Seq::empty(), acc.push(cur));
            assert(ws_core(s, cur, acc) == ws_core(s.drop_first(), Seq::empty(), acc.push(cur)));
        } else {
            lemma_words_nonempty(s.drop_first(), Seq::empty(), acc);
            assert(ws_core(s, cur, acc) == ws_core(s.drop_first(), Seq::empty(), acc));
        }
    } else {
        lemma_words_nonempty(s.drop_first(), cur.push(s[0]), acc);
        assert(ws_core(s, cur, acc) == ws_core(s.drop_first(), cur.push(s[0]), acc));
    }
}

/// Parses a run of decimal digits as a file size; None on an empty run, a
/// non-digit, or a value that does not fit a signed 64-bit size.
fn parse_size(v: &Vec<char>) -> (r: Option<i64>)
    ensures
        match r {
            Some(x) => x >= 0 && spec_parse_u32(v@) == Some(x as nat),
            None => spec_parse_u32(v@) is None || (spec_parse_u32(v@) matches Some(x) && x
                > i64::MAX),
        },
{
    if v.len() == 0 {
        return None;
    }
    let mut acc: i64 = 0;
    let mut i: usize = 0;
    while i < v.len()
        invariant
            0 <= i <= v@.len(),
            v@.len() > 0,
            acc >= 0,
            i == 0 ==> acc == 0,
            i > 0 ==> spec_parse_u32(v@.subrange(0, i as int)) == Some(acc as nat),
        decreases v@.len() - i,
    {
        let c = v[i];
        if c < '0' || c > '9' {
            proof {
                lemma_parse_u32_bad_digit(v@, i as int);
            }
            return None;
        }
        let d = ((c as u32) - ('0' as u32)) as i64;
        let next = match acc.checked_mul(10) {
            Some(m) => m.checked_add(d),
            None => None,
        };
        match next {
            None => {
                proof {
                    lemma_parse_u32_grows(
                        v@,
                        i as int,
                        acc as nat,
                        d as nat,
                        i64::MAX as nat,
                    );
                }
                return None;
            },
            Some(a2) => {
                let ghost prev = v@.subrange(0, i as int);
                proof {
                    let cur = v@.subrange(0, i + 1);
                    assert(cur.drop_last() =~= prev);
                    assert(cur[cur.len() - 1] == v@[i as int]);
                    assert(spec_is_digit(v@[i as int]));
                    assert(spec_digit_val(v@[i as int]) == d as nat);
                    if i == 0 {
                        assert(cur.len() == 1);
                        assert(spec_parse_u32(cur) == Some(spec_digit_val(cur[0])));
                        assert(a2 == d);
                    } else {
                        assert(spec_parse_u32(cur) == Some((acc as nat) * 10 + spec_digit_val(
                            cur[cur.len() - 1],
                        )));
                    }
                }
                acc = a2;
            },
        }
        i = i + 1;
    }
    proof {
        assert(v@.subrange(0, v@.len() as int) =~= v@);
    }
    Some(acc)
}

/// The listing order: directories before files, then case-insensitively by
/// name, code point by code point over the lowercase forms.
pub open spec fn entry_le(a: FileEntry, b: FileEntry) -> bool {
    if a.is_directory != b.is_directory {
        a.is_directory
    } else {
        spec_lex_cmp(lower_of(a.name@), lower_of(b.name@)) != core::cmp::Ordering::Greater
    }
}

fn entry_le_exec(a: &FileEntry, b: &FileEntry) -> (r: bool)
    ensures
        r == entry_le(*a, *b),
{
    if a.is_directory != b.is_directory {
        a.is_directory
    } else {
        match crate::token::cmp_case_insensitive(a.name.as_str(), b.name.as_str()) {
            core::cmp::Ordering::Greater => false,
            _ => true,
        }
    }
}

proof fn lemma_entry_le_total(a: FileEntry, b: FileEntry)
    ensures
        entry_le(a, b) || entry_le(b, a),
{
    if a.is_directory == b.is_directory {
        lemma_lex_cmp_flip(lower_of(a.name@), lower_of(b.name@));
    }
}

proof fn lemma_entry_le_trans(a: FileEntry, b: FileEntry, c: FileEntry)
    requires
        entry_le(a, b),
        entry_le(b, c),
    ensures
        entry_le(a, c),
{
    if a.is_directory == b.is_directory && b.is_directory == c.is_directory {
        lemma_lex_cmp_trans(lower_of(a.name@), lower_of(b.name@), lower_of(c.name@));
    }
}

/// Sorts listing entries into the listing order: a permutation of the input,
/// directories first, then case-insensitively by name.
fn sort_entries(v: Vec<FileEntry>) -> (r: Vec<FileEntry>)
    ensures
        r@.len() == v@.len(),
        r@.map_values(|e: FileEntry| file_entry_model(e)).to_multiset() == v@.map_values(
            |e: FileEntry| file_entry_model(e),
        ).to_multiset(),
        forall|i: int, j: int| 0 <= i < j < r@.len() ==> entry_le(r@[i], r@[j]),
{
    broadcast use vstd::seq_lib::group_to_multiset_ensures;

    let ghost v0 = v@;
    let mut rem = v;
    let mut out: Vec<FileEntry> = Vec::new();
    proof {
        assert(out@.map_values(|e: FileEntry| file_entry_model(e)).to_multiset().add(
            rem@.map_values(|e: FileEntry| file_entry_model(e)).to_multiset(),
        ) =~= v0.map_values(|e: FileEntry| file_entry_model(e)).to_multiset());
    }
    while rem.len() > 0
        invariant
            out@.len() + rem@.len() == v0.len(),
            out@.map_values(|e: FileEntry| file_entry_model(e)).to_multiset().add(
                rem@.map_values(|e: FileEntry| file_entry_model(e)).to_multiset(),
            ) == v0.map_values(|e: FileEntry| file_entry_model(e)).to_multiset(),
            forall|i: int, j: int| 0 <= i < j < out@.len() ==> entry_le(out@[i], out@[j]),
        decreases rem@.len(),
    {
        let ghost old_rem = rem@;
        let ghost old_out = out@;
        let x = rem.remove(0);
        proof {
            assert(old_rem.map_values(|e: FileEntry| file_entry_model(e)).remove(0)
                =~= rem@.map_values(|e: FileEntry| file_entry_model(e)));
            assert(old_rem.map_values(|e: FileEntry| file_entry_model(e))[0]
                == file_entry_model(x));
        }
        let mut p: usize = 0;
        while p < out.len() && entry_le_exec(&out[p], &x)
            invariant_except_break
                0 <= p <= out@.len(),
                forall|j: int| 0 <= j < p ==> entry_le(out@[j], x),
            ensures
                0 <= p <= out@.len(),
                forall|j: int| 0 <= j < p ==> entry_le(out@[j], x),
                p < out@.len() ==> !entry_le(out@[p as int], x),
            decreases out@.len() - p,
        {
            if p + 1 == out.len() && !entry_le_exec(&out[p], &x) {
                break;
            }
            p = p + 1;
        }
        proof {
            if p < out@.len() {
                lemma_entry_le_total(out@[p as int], x);
                assert(entry_le(x, out@[p as int]));
            }
        }
        out.insert(p, x);
        proof {
            assert forall|i: int, j: int|
                0 <= i < j < out@.len() implies entry_le(out@[i], out@[j]) by {
                if j < p {
                    assert(out@[i] == old_out[i] && out@[j] == old_out[j]);
                } else if i < p && j == p {
                    assert(out@[i] == old_out[i] && out@[j] == x);
                } else if i < p && j > p {
                    assert(out@[i] == old_out[i] && out@[j] == old_out[j - 1]);
                } else if i == p {
                    assert(out@[i] == x && out@[j] == old_out[j - 1]);
                    assert(!entry_le(old_out[p as int], x));
                    lemma_entry_le_total(old_out[p as int], x);
                    assert(entry_le(x, old_out[p as int]));
                    if j - 1 > p {
                        assert(entry_le(old_out[p as int], old_out[j - 1]));
                        lemma_entry_le_trans(x, old_out[p as int], old_out[j - 1]);
                    }
                } else {
                    assert(out@[i] == old_out[i - 1] && out@[j] == old_out[j - 1]);
                }
            }
            // The multiset accounting: moving x from the remainder into the
            // sorted prefix.
            broadcast use vstd::seq_lib::group_to_multiset_ensures;

            let f = |e: FileEntry| file_entry_model(e);
            assert(out@.map_values(f) =~= old_out.map_values(f).insert(
                p as int,
                file_entry_model(x),
            ));
            lemma_map_multiset_insert(old_out, x, p as int);
            assert(out@.map_values(f).to_multiset() =~= old_out.map_values(f).to_multiset()
                .insert(file_entry_model(x)));
            let mr = old_rem.map_values(f);
            assert(mr.remove(0).to_multiset() =~= mr.to_multiset().remove(mr[0]));
            assert(mr.contains(file_entry_model(x))) by {
                assert(mr[0] == file_entry_model(x));
            }
            assert(mr.to_multiset().count(file_entry_model(x)) > 0);
            assert(mr.to_multiset() =~= mr.to_multiset().remove(file_entry_model(x)).insert(
                file_entry_model(x),
            ));
            assert(old_rem.map_values(f).to_multiset() =~= rem@.map_values(f).to_multiset()
                .insert(file_entry_model(x)));
            assert(out@.map_values(f).to_multiset().add(rem@.map_values(f).to_multiset())
                =~= v0.map_values(f).to_multiset());
        }
    }
    proof {
        broadcast use vstd::seq_lib::group_to_multiset_ensures;

        assert(rem@.map_values(|e: FileEntry| file_entry_model(e)).to_multiset()
            =~= vstd::multiset::Multiset::<(Seq<char>, Seq<char>, bool, Option<int>, Seq<char>)>::empty());
        assert(out@.map_values(|e: FileEntry| file_entry_model(e)).to_multiset()
            =~= v0.map_values(|e: FileEntry| file_entry_model(e)).to_multiset());
    }
    out
}

/// Inserting an element into a sequence inserts its image into the mapped
/// multiset.
proof fn lemma_map_multiset_insert(s: Seq<FileEntry>, x: FileEntry, p: int)
    requires
        0 <= p <= s.len(),
    ensures
        s.map_values(|e: FileEntry| file_entry_model(e)).insert(
            p,
            file_entry_model(x),
        ).to_multiset() == s.map_values(|e: FileEntry| file_entry_model(e)).to_multiset()
            .insert(file_entry_model(x)),
{
    broadcast use vstd::seq_lib::group_to_multiset_ensures;

    let f = |e: FileEntry| file_entry_model(e);
    let m = s.map_values(f);
    let ins = m.insert(p, f(x));
    assert(ins.remove(p) =~= m);
    assert(ins[p] == f(x));
    assert(ins.remove(p).to_multiset() =~= ins.to_multiset().remove(f(x)));
    assert(ins.to_multiset().contains(f(x))) by {
        assert(ins[p] == f(x));
        assert(ins.contains(f(x)));
    }
    assert(ins.to_multiset() =~= ins.to_multiset().remove(f(x)).insert(f(x)));
}

/// One parsed listing entry, in ghost form: name, full path, directory flag,
/// size, permissions.
pub open spec fn spec_ls_entry(line: Seq<char>, base: Seq<char>) -> Option<
    (Seq<char>, Seq<char>, bool, Option<int>, Seq<char>),
> {
    let ws = spec_words(line);
    if line.len() == 0 || spec_starts_with(line, "total "@) {
        None
    } else if ws.len() < 9 {
        None
    } else {
        let name = spec_join(ws.subrange(8, ws.len() as int), " "@);
        if name == "."@ || name == ".."@ {
            None
        } else {
            let perms = ws[0];
            let full = if base.len() > 0 && base[base.len() - 1] == '/' {
                base + name
            } else {
                base + "/"@ + name
            };
            let size = match spec_parse_u32(ws[4]) {
                Some(n) => if n <= i64::MAX {
                    Some(n as int)
                } else {
                    None
                },
                None => None,
            };
            Some((name, full, perms.len() > 0 && perms[0] == 'd', size, perms.drop_first()))
        }
    }
}

/// The entries of an `ls -la` listing, in order of appearance.
pub open spec fn spec_ls_entries(ls: Seq<Seq<char>>, base: Seq<char>) -> Seq<
    (Seq<char>, Seq<char>, bool, Option<int>, Seq<char>),
>
    decreases ls.len(),
{
    if ls.len() == 0 {
        Seq::empty()
    } else {
        (match spec_ls_entry(ls[0], base) {
            Some(e) => seq![e],
            None => Seq::empty(),
        }) + spec_ls_entries(ls.drop_first(), base)
    }
}

/// The ghost form of a listing entry.
pub open spec fn file_entry_model(e: FileEntry) -> (
    Seq<char>,
    Seq<char>,
    bool,
    Option<int>,
    Seq<char>,
) {
    (
        e.name@,
        e.path@,
        e.is_directory,
        match e.size {
            Some(n) => Some(n as int),
            None => None,
        },
        e.permissions@,
    )
}

/// Parses `ls -la` output into entries: lines with at least nine fields,
/// skipping the total line and the dot entries, sorted directories first and
/// then case-insensitively by name.
pub fn parse_ls_output(output: &str, base_path: &str) -> (r: Vec<FileEntry>)
    ensures
        r@.len() == spec_ls_entries(spec_lines(output@), base_path@).len(),
        r@.map_values(|e: FileEntry| file_entry_model(e)).to_multiset() == spec_ls_entries(
            spec_lines(output@),
            base_path@,
        ).to_multiset(),
        forall|i: int, j: int| 0 <= i < j < r@.len() ==> entry_le(r@[i], r@[j]),
{
    let ls = lines_of(output);
    let ghost all = ls.deep_view();
    let mut out: Vec<FileEntry> = Vec::new();
    let mut i: usize = 0;
    proof {
        assert(all.subrange(0, all.len() as int) =~= all);
        assert(out@.map_values(|e: FileEntry| file_entry_model(e))
            =~= Seq::<(Seq<char>, Seq<char>, bool, Option<int>, Seq<char>)>::empty());
    }
    while i < ls.len()
        invariant
            0 <= i <= ls.len(),
            all == ls.deep_view(),
            all.len() == ls.len(),
            out@.map_values(|e: FileEntry| file_entry_model(e)) + spec_ls_entries(
                all.subrange(i as int, all.len() as int),
                base_path@,
            ) =~~= spec_ls_entries(all, base_path@),
        decreases ls.len() - i,
    {
        let line = &ls[i];
        proof {
            assert(all[i as int] == ls@[i as int].deep_view());
            assert(all[i as int] =~= line@);
        }
        let ghost tail = all.subrange(i as int, all.len() as int);
        let ghost tail2 = all.subrange(i + 1, all.len() as int);
        proof {
            assert(tail.len() > 0);
            assert(tail[0] == all[i as int]);
            assert(tail.drop_first() =~= tail2);
        }
        let mut total_marker: Vec<char> = Vec::new();
        total_marker.push('t');
        total_marker.push('o');
        total_marker.push('t');
        total_marker.push('a');
        total_marker.push('l');
        total_marker.push(' ');
        proof {
            reveal_strlit("total ");
            assert(total_marker@ =~= "total "@);
        }
        let skip = line.len() == 0 || starts_with_chars(line, &total_marker);
        if !skip {
            let words = split_words(line);
            if words.len() >= 9 {
                let mut name_parts: Vec<Vec<char>> = Vec::new();
                let mut k: usize = 8;
                proof {
                    assert(name_parts.deep_view() =~= words.deep_view().subrange(8, 8));
                }
                while k < words.len()
                    invariant
                        8 <= k <= words.deep_view().len(),
                        words.deep_view().len() == words@.len(),
                        name_parts.deep_view() =~= words.deep_view().subrange(8, k as int),
                    decreases words@.len() - k,
                {
                    let mut copy: Vec<char> = Vec::new();
                    let w = &words[k];
                    let mut z: usize = 0;
                    while z < w.len()
                        invariant
                            0 <= z <= w@.len(),
                            copy@ == w@.subrange(0, z as int),
                        decreases w@.len() - z,
                    {
                        copy.push(w[z]);
                        proof {
                            assert(copy@ =~= w@.subrange(0, z + 1));
                        }
                        z = z + 1;
                    }
                    proof {
                        assert(copy@ =~= w@);
                    }
                    let ghost old_parts = name_parts.deep_view();
                    name_parts.push(copy);
                    proof {
                        assert(name_parts.deep_view() =~~= old_parts.push(w@));
                        assert(name_parts.deep_view() =~~= words.deep_view().subrange(
                            8,
                            k + 1,
                        ));
                    }
                    k = k + 1;
                }
                let mut sep: Vec<char> = Vec::new();
                sep.push(' ');
                proof {
                    reveal_strlit(" ");
                    assert(sep@ =~= " "@);
                }
                let name_chars = crate::text::join_chars(&name_parts, &sep);
                let mut dot: Vec<char> = Vec::new();
                dot.push('.');
                let mut dotdot: Vec<char> = Vec::new();
                dotdot.push('.');
                dotdot.push('.');
                proof {
                    reveal_strlit(".");
                    reveal_strlit("..");
                    assert(dot@ =~= "."@);
                    assert(dotdot@ =~= ".."@);
                }
                let is_dot = name_chars.len() == 1 && name_chars[0] == '.';
                let is_dotdot = name_chars.len() == 2 && name_chars[0] == '.'
                    && name_chars[1] == '.';
                proof {
                    assert(is_dot == (name_chars@ =~= "."@));
                    assert(is_dotdot == (name_chars@ =~= ".."@));
                }
                if !is_dot && !is_dotdot {
                    let perms = &words[0];
                    let is_directory = perms.len() > 0 && perms[0] == 'd';
                    let size = parse_size(&words[4]);
                    let mut perm_rest: Vec<char> = Vec::new();
                    let mut z: usize = 1;
                    if perms.len() > 0 {
                        while z < perms.len()
                            invariant
                                1 <= z <= perms@.len(),
                                perm_rest@ == perms@.subrange(1, z as int),
                            decreases perms@.len() - z,
                        {
                            perm_rest.push(perms[z]);
                            proof {
                                assert(perm_rest@ =~= perms@.subrange(1, z + 1));
                            }
                            z = z + 1;
                        }
                        proof {
                            assert(perm_rest@ =~= perms@.drop_first());
                        }
                    }
                    proof {
                        lemma_words_nonempty(tail[0], Seq::empty(), Seq::empty());
                        assert(words.deep_view()[0].len() > 0);
                        assert(perms@ == words.deep_view()[0]);
                        assert(perms@.len() > 0);
                    }
                    let name = string_of(&name_chars);
                    let base_v = chars_of(base_path);
                    let full = if base_v.len() > 0 && base_v[base_v.len() - 1] == '/' {
                        let mut f = String::from_str(base_path);
                        f.append(name.as_str());
                        f
                    } else {
                        let mut f = String::from_str(base_path);
                        f.append("/");
                        f.append(name.as_str());
                        f
                    };
                    let entry = FileEntry {
                        name,
                        path: full,
                        is_directory,
                        size,
                        permissions: string_of(&perm_rest),
                    };
                    let ghost old_models = out@.map_values(|e: FileEntry| file_entry_model(e));
                    proof {
                        let ws = spec_words(tail[0]);
                        assert(words.deep_view() == ws);
                        assert(words.deep_view().subrange(8, words.deep_view().len() as int)
                            =~= name_parts.deep_view());
                        assert(name_chars@ == spec_join(
                            ws.subrange(8, ws.len() as int),
                            " "@,
                        ));
                        assert(perms@ == ws[0]);
                        assert(words@[4]@ == ws[4]);
                        assert(entry.permissions@ =~= ws[0].drop_first());
                        assert(entry.name@ == name_chars@);
                        let spec_full = if base_path@.len() > 0 && base_path@[base_path@.len()
                            - 1] == '/' {
                            base_path@ + name_chars@
                        } else {
                            base_path@ + "/"@ + name_chars@
                        };
                        assert(entry.path@ =~= spec_full);
                        assert(spec_ls_entry(tail[0], base_path@) matches Some(e) && e
                            == file_entry_model(entry));
                    }
                    out.push(entry);
                    proof {
                        assert(out@.map_values(|e: FileEntry| file_entry_model(e))
                            =~~= old_models.push(file_entry_model(entry)));
                        assert(spec_ls_entries(tail, base_path@) =~~= seq![
                            file_entry_model(entry),
                        ] + spec_ls_entries(tail2, base_path@));
                        assert(out@.map_values(|e: FileEntry| file_entry_model(e))
                            + spec_ls_entries(tail2, base_path@) =~~= spec_ls_entries(
                            all,
                            base_path@,
                        ));
                    }
                } else {
                    proof {
                        assert(spec_ls_entry(tail[0], base_path@) is None);
                        assert(spec_ls_entries(tail, base_path@) =~~= spec_ls_entries(
                            tail2,
                            base_path@,
                        ));
                    }
                }
            } else {
                proof {
                    assert(words.deep_view() == spec_words(tail[0]));
                    assert(spec_ls_entry(tail[0], base_path@) is None);
                    assert(spec_ls_entries(tail, base_path@) =~~= spec_ls_entries(
                        tail2,
                        base_path@,
                    ));
                }
            }
        } else {
            proof {
                assert(spec_ls_entry(tail[0], base_path@) is None);
                assert(spec_ls_entries(tail, base_path@) =~~= spec_ls_entries(
                    tail2,
                    base_path@,
                ));
            }
        }
        i = i + 1;
    }
    proof {
        assert(spec_ls_entries(all.subrange(i as int, all.len() as int), base_path@)
            =~= Seq::<(Seq<char>, Seq<char>, bool, Option<int>, Seq<char>)>::empty());
        assert(out@.map_values(|e: FileEntry| file_entry_model(e)) =~~= spec_ls_entries(
            all,
            base_path@,
        ));
    }
    sort_entries(out)
}

/// The non-empty lines of find output.
pub open spec fn spec_find_matches(ls: Seq<Seq<char>>) -> Seq<Seq<char>>
    decreases ls.len(),
{
    if ls.len() == 0 {
        Seq::empty()
    } else {
        (if ls[0].len() > 0 {
            seq![ls[0]]
        } else {
            Seq::empty()
        }) + spec_find_matches(ls.drop_first())
    }
}

/// Parses find output: every non-empty line is a match.
pub fn parse_find_output(output: &str) -> (r: Vec<String>)
    ensures
        r.deep_view() == spec_find_matches(spec_lines(output@)),
{
    let ls = lines_of(output);
    let ghost all = ls.deep_view();
    let mut out: Vec<String> = Vec::new();
    let mut i: usize = 0;
    proof {
        assert(all.subrange(0, all.len() as int) =~= all);
        assert(out.deep_view() =~= Seq::<Seq<char>>::empty());
    }
    while i < ls.len()
        invariant
            0 <= i <= ls.len(),
            all == ls.deep_view(),
            all.len() == ls.len(),
            out.deep_view() + spec_find_matches(all.subrange(i as int, all.len() as int))
                =~~= spec_find_matches(all),
        decreases ls.len() - i,
    {
        let line = &ls[i];
        proof {
            assert(all[i as int] == ls@[i as int].deep_view());
            assert(all[i as int] =~= line@);
        }
        let ghost tail = all.subrange(i as int, all.len() as int);
        let ghost tail2 = all.subrange(i + 1, all.len() as int);
        proof {
            assert(tail.len() > 0);
            assert(tail[0] == all[i as int]);
            assert(tail.drop_first() =~= tail2);
        }
        if line.len() > 0 {
            let ghost old_out = out.deep_view();
            let s = string_of(line);
            out.push(s);
            proof {
                assert(out.deep_view() =~~= old_out.push(line@));
                assert(spec_find_matches(tail) =~~= seq![tail[0]] + spec_find_matches(tail2));
                assert(out.deep_view() + spec_find_matches(tail2) =~~= spec_find_matches(all));
            }
        } else {
            proof {
                assert(spec_find_matches(tail) =~~= spec_find_matches(tail2));
            }
        }
        i = i + 1;
    }
    proof {
        assert(spec_find_matches(all.subrange(i as int, all.len() as int))
            =~= Seq::<Seq<char>>::empty());
        assert(out.deep_view() =~~= spec_find_matches(all));
    }
    out
}

/// The first index of a colon at or after `from`, if any.
pub open spec fn spec_colon_at(l: Seq<char>, from: int) -> Option<int> {
    if exists|i: int| from <= i < l.len() && l[i] == ':' {
        Some(
            choose|i: int|
                from <= i < l.len() && l[i] == ':' && (forall|j: int|
                    from <= j < i ==> l[j] != ':'),
        )
    } else {
        None
    }
}

/// Finds the first colon at or after `from`.
fn colon_at(v: &Vec<char>, from: usize) -> (r: Option<usize>)
    requires
        from <= v@.len(),
    ensures
        match r {
            Some(i) => from <= i < v@.len() && spec_colon_at(v@, from as int) == Some(i as int),
            None => spec_colon_at(v@, from as int) is None,
        },
{
    let mut i: usize = from;
    while i < v.len()
        invariant
            from <= i <= v@.len(),
            forall|j: int| from <= j < i ==> v@[j] != ':',
        decreases v@.len() - i,
    {
        if v[i] == ':' {
            proof {
                let w = choose|w: int|
                    from <= w < v@.len() && v@[w] == ':' && (forall|j: int|
                        from <= j < w ==> v@[j] != ':');
                if w != i as int {
                    if w < i as int {
                        assert(v@[w] != ':');
                    } else {
                        assert(v@[i as int] != ':');
                    }
                    assert(false);
                }
            }
            return Some(i);
        }
        i = i + 1;
    }
    proof {
        if exists|w: int| from <= w < v@.len() && v@[w] == ':' {
            let w = choose|w: int| from <= w < v@.len() && v@[w] == ':';
            assert(v@[w] != ':');
            assert(false);
        }
    }
    None
}

/// One parsed grep line, in ghost form: file, line number, content. The line
/// must look like `file:number:content`.
pub open spec fn spec_grep_line(l: Seq<char>) -> Option<(Seq<char>, int, Seq<char>)> {
    match spec_colon_at(l, 0) {
        None => None,
        Some(j) => match spec_colon_at(l, j + 1) {
            None => None,
            Some(k) => match spec_parse_u32(l.subrange(j + 1, k)) {
                Some(n) => if n <= u32::MAX {
                    Some((l.subrange(0, j), n as int, l.subrange(k + 1, l.len() as int)))
                } else {
                    None
                },
                None => None,
            },
        },
    }
}

/// The matches of grep output, in order.
pub open spec fn spec_grep_matches(ls: Seq<Seq<char>>) -> Seq<(Seq<char>, int, Seq<char>)>
    decreases ls.len(),
{
    if ls.len() == 0 {
        Seq::empty()
    } else {
        (match spec_grep_line(ls[0]) {
            Some(m) => seq![m],
            None => Seq::empty(),
        }) + spec_grep_matches(ls.drop_first())
    }
}

/// The ghost form of a grep match.
pub open spec fn grep_match_model(m: GrepMatch) -> (Seq<char>, int, Seq<char>) {
    (m.file@, m.line as int, m.content@)
}

/// Copies a range of characters.
fn copy_range(v: &Vec<char>, from: usize, to: usize) -> (r: Vec<char>)
    requires
        from <= to <= v@.len(),
    ensures
        r@ == v@.subrange(from as int, to as int),
{
    let mut out: Vec<char> = Vec::new();
    let mut z: usize = from;
    while z < to
        invariant
            from <= z <= to <= v@.len(),
            out@ == v@.subrange(from as int, z as int),
        decreases to - z,
    {
        out.push(v[z]);
        proof {
            assert(out@ =~= v@.subrange(from as int, z + 1));
        }
        z = z + 1;
    }
    out
}

/// Parses one grep output line, when it has the `file:number:content` shape.
#[verifier::rlimit(100)]
#[verifier::spinoff_prover]
fn parse_grep_line(line: &Vec<char>) -> (r: Option<GrepMatch>)
    ensures
        match r {
            Some(m) => spec_grep_line(line@) == Some(grep_match_model(m)),
            None => spec_grep_line(line@) is None,
        },
{
    let n = line.len();
    if let Some(j) = colon_at(line, 0) {
        assert(j < n);
        if let Some(k) = colon_at(line, j + 1) {
            let mid = copy_range(line, j + 1, k);
            if let Some(num) = parse_u32_chars(&mid) {
                let file = copy_range(line, 0, j);
                let content = copy_range(line, k + 1, n);
                let m = GrepMatch {
                    file: string_of(&file),
                    line: num,
                    content: string_of(&content),
                };
                proof {
                    assert(spec_grep_line(line@) == Some(grep_match_model(m)));
                }
                Some(m)
            } else {
                None
            }
        } else {
            None
        }
    } else {
        None
    }
}

/// Parses `grep -rn` output: each `file:number:content` line is a match, in
/// order of appearance; anything else is skipped.
#[verifier::rlimit(60)]
#[verifier::spinoff_prover]
pub fn parse_grep_output(output: &str) -> (r: Vec<GrepMatch>)
    ensures
        r@.map_values(|m: GrepMatch| grep_match_model(m)) == spec_grep_matches(
            spec_lines(output@),
        ),
{
    let ls = lines_of(output);
    let ghost all = ls.deep_view();
    let mut out: Vec<GrepMatch> = Vec::new();
    let mut i: usize = 0;
    proof {
        assert(all.subrange(0, all.len() as int) =~= all);
        assert(out@.map_values(|m: GrepMatch| grep_match_model(m)) =~= Seq::<
            (Seq<char>, int, Seq<char>),
        >::empty());
    }
    while i < ls.len()
        invariant
            0 <= i <= ls.len(),
            all == ls.deep_view(),
            all.len() == ls.len(),
            out@.map_values(|m: GrepMatch| grep_match_model(m)) + spec_grep_matches(
                all.subrange(i as int, all.len() as int),
            ) =~~= spec_grep_matches(all),
        decreases ls.len() - i,
    {
        let line = &ls[i];
        proof {
            assert(all[i as int] == ls@[i as int].deep_view());
            assert(all[i as int] =~= line@);
        }
        let ghost tail = all.subrange(i as int, all.len() as int);
        let ghost tail2 = all.subrange(i + 1, all.len() as int);
        proof {
            assert(tail.len() > 0);
            assert(tail[0] == all[i as int]);
            assert(tail.drop_first() =~= tail2);
        }
        match parse_grep_line(line) {
            Some(m) => {
                let ghost old_models = out@.map_values(|m2: GrepMatch| grep_match_model(m2));
                proof {
                    assert(spec_grep_line(tail[0]) == Some(grep_match_model(m)));
                }
                out.push(m);
                proof {
                    assert(out@.map_values(|m2: GrepMatch| grep_match_model(m2))
                        =~~= old_models.push(spec_grep_matches(tail)[0]));
                    assert(spec_grep_matches(tail) =~~= seq![spec_grep_matches(tail)[0]]
                        + spec_grep_matches(tail2));
                    assert(out@.map_values(|m2: GrepMatch| grep_match_model(m2))
                        + spec_grep_matches(tail2) =~~= spec_grep_matches(all));
                }
            },
            None => {
                proof {
                    assert(spec_grep_line(tail[0]) is None);
                    assert(spec_grep_matches(tail) =~~= spec_grep_matches(tail2));
                }
            },
        }
        i = i + 1;
    }
    proof {
        assert(spec_grep_matches(all.subrange(i as int, all.len() as int)) =~= Seq::<
            (Seq<char>, int, Seq<char>),
        >::empty());
        assert(out@.map_values(|m: GrepMatch| grep_match_model(m)) =~~= spec_grep_matches(
            all,
        ));
    }
    out
}

/// The listing command for a directory.
pub fn list(base_path: &str, path: &str) -> (r: (String, String))
    ensures
        r.1@ == spec_join_remote(base_path@, path@),
        r.0@ == "ls -la "@ + spec_quote_path(spec_join_remote(base_path@, path@)),
{
    let full = join_remote_path(base_path, path);
    let q = quote_path(full.as_str());
    let mut cmd = String::from_str("ls -la ");
    cmd.append(q.as_str());
    (cmd, full)
}

/// The read command for a file.
pub fn read(base_path: &str, path: &str) -> (r: (String, String))
    ensures
        r.1@ == spec_join_remote(base_path@, path@),
        r.0@ == "cat "@ + spec_quote_path(spec_join_remote(base_path@, path@)),
{
    let full = join_remote_path(base_path, path);
    let q = quote_path(full.as_str());
    let mut cmd = String::from_str("cat ");
    cmd.append(q.as_str());
    (cmd, full)
}

/// The write command for a file: the content travels in a quoted heredoc.
pub fn write(base_path: &str, path: &str, content: &str) -> (r: (String, String))
    ensures
        r.1@ == spec_join_remote(base_path@, path@),
        r.0@ == "cat > "@ + spec_quote_path(spec_join_remote(base_path@, path@))
            + " << 'HOMEBOYEOF'\n"@ + content@ + "\nHOMEBOYEOF"@,
{
    let full = join_remote_path(base_path, path);
    let q = quote_path(full.as_str());
    let mut cmd = String::from_str("cat > ");
    cmd.append(q.as_str());
    cmd.append(" << 'HOMEBOYEOF'\n");
    cmd.append(content);
    cmd.append("\nHOMEBOYEOF");
    (cmd, full)
}

/// The delete command for a path, forced, recursive on request.
pub fn delete(base_path: &str, path: &str, recursive: bool) -> (r: (String, String))
    ensures
        r.1@ == spec_join_remote(base_path@, path@),
        recursive ==> r.0@ == "rm -rf "@ + spec_quote_path(spec_join_remote(base_path@, path@)),
        !recursive ==> r.0@ == "rm -f "@ + spec_quote_path(spec_join_remote(base_path@, path@)),
{
    let full = join_remote_path(base_path, path);
    let q = quote_path(full.as_str());
    let mut cmd = if recursive {
        String::from_str("rm -rf ")
    } else {
        String::from_str("rm -f ")
    };
    cmd.append(q.as_str());
    (cmd, full)
}

/// The rename command between two paths under the same base.
pub fn rename(base_path: &str, old_path: &str, new_path: &str) -> (r: (String, String, String))
    ensures
        r.1@ == spec_join_remote(base_path@, old_path@),
        r.2@ == spec_join_remote(base_path@, new_path@),
        r.0@ == "mv "@ + spec_quote_path(spec_join_remote(base_path@, old_path@)) + " "@
            + spec_quote_path(spec_join_remote(base_path@, new_path@)),
{
    let full_old = join_remote_path(base_path, old_path);
    let full_new = join_remote_path(base_path, new_path);
    let qo = quote_path(full_old.as_str());
    let qn = quote_path(full_new.as_str());
    let mut cmd = String::from_str("mv ");
    cmd.append(qo.as_str());
    cmd.append(" ");
    cmd.append(qn.as_str());
    (cmd, full_old, full_new)
}

/// The find command a search runs.
pub open spec fn spec_find_cmd(
    full: Seq<char>,
    name_pattern: Option<Seq<char>>,
    file_type: Option<Seq<char>>,
    max_depth: Option<u32>,
) -> Seq<char> {
    "find "@ + spec_quote_path(full) + (match max_depth {
        Some(d) => " -maxdepth "@ + spec_u32_str(d as nat),
        None => Seq::<char>::empty(),
    }) + (match file_type {
        Some(t) => " -type "@ + t,
        None => Seq::<char>::empty(),
    }) + (match name_pattern {
        Some(n) => " -name "@ + spec_quote_path(n),
        None => Seq::<char>::empty(),
    }) + " 2>/dev/null | sort"@
}

/// The find command for a path, with optional depth, type, and name filters;
/// output is piped through sort for stable results. A type other than `f`,
/// `d`, or `l` is rejected before anything runs.
pub fn find(
    base_path: &str,
    path: &str,
    name_pattern: Option<&str>,
    file_type: Option<&str>,
    max_depth: Option<u32>,
) -> (r: Result<(String, String), Error>)
    ensures
        r is Err <==> (file_type matches Some(t) && !(t@ == "f"@ || t@ == "d"@ || t@
            == "l"@)),
        match r {
            Ok(p) => {
                &&& p.1@ == spec_join_remote(base_path@, path@)
                &&& p.0@ == spec_find_cmd(
                    spec_join_remote(base_path@, path@),
                    match name_pattern {
                        Some(n) => Some(n@),
                        None => None,
                    },
                    match file_type {
                        Some(t) => Some(t@),
                        None => None,
                    },
                    max_depth,
                )
            },
            Err(e) => e.code == ErrorCode::Other && e.message@
                == "Invalid file type. Use 'f', 'd', or 'l'."@,
        },
{
    match file_type {
        Some(t) => {
            let ts = String::from_str(t);
            let okf = ts.eq(&String::from_str("f")) || ts.eq(&String::from_str("d"))
                || ts.eq(&String::from_str("l"));
            if !okf {
                return Err(
                    Error::other(String::from_str("Invalid file type. Use 'f', 'd', or 'l'.")),
                );
            }
        },
        None => {},
    }
    let full = join_remote_path(base_path, path);
    let q = quote_path(full.as_str());
    let mut cmd = String::from_str("find ");
    cmd.append(q.as_str());
    match max_depth {
        Some(d) => {
            cmd.append(" -maxdepth ");
            let digits = u32_chars(d);
            let ds = string_of(&digits);
            cmd.append(ds.as_str());
        },
        None => {},
    }
    match file_type {
        Some(t) => {
            cmd.append(" -type ");
            cmd.append(t);
        },
        None => {},
    }
    match name_pattern {
        Some(n) => {
            cmd.append(" -name ");
            let qn = quote_path(n);
            cmd.append(qn.as_str());
        },
        None => {},
    }
    cmd.append(" 2>/dev/null | sort");
    proof {
        assert(cmd@ =~= spec_find_cmd(
            spec_join_remote(base_path@, path@),
            match name_pattern {
                Some(n) => Some(n@),
                None => None,
            },
            match file_type {
                Some(t) => Some(t@),
                None => None,
            },
            max_depth,
        ));
    }
    Ok((cmd, full))
}

/// The grep command a content search runs.
pub open spec fn spec_grep_cmd(
    pattern: Seq<char>,
    full: Seq<char>,
    name_filter: Option<Seq<char>>,
    max_depth: Option<u32>,
    case_insensitive: bool,
) -> Seq<char> {
    (if case_insensitive {
        "grep -rni "@
    } else {
        "grep -rn "@
    }) + spec_quote_path(pattern) + " "@ + spec_quote_path(full) + (match name_filter {
        Some(n) => " --include="@ + spec_quote_path(n),
        None => Seq::<char>::empty(),
    }) + (match max_depth {
        Some(d) => " --max-depth="@ + spec_u32_str(d as nat),
        None => Seq::<char>::empty(),
    }) + " 2>/dev/null"@
}

/// The grep command for a path: recursive with line numbers, case-insensitive
/// on request, with optional name and depth filters. An empty pattern after
/// trimming is rejected before anything runs.
pub fn grep(
    base_path: &str,
    path: &str,
    pattern: &str,
    name_filter: Option<&str>,
    max_depth: Option<u32>,
    case_insensitive: bool,
) -> (r: Result<(String, String), Error>)
    ensures
        r is Err <==> spec_trim(pattern@).len() == 0,
        match r {
            Ok(p) => {
                &&& p.1@ == spec_join_remote(base_path@, path@)
                &&& p.0@ == spec_grep_cmd(
                    pattern@,
                    spec_join_remote(base_path@, path@),
                    match name_filter {
                        Some(n) => Some(n@),
                        None => None,
                    },
                    max_depth,
                    case_insensitive,
                )
            },
            Err(e) => e.code == ErrorCode::Other && e.message@ == "Search pattern required"@,
        },
{
    let pv = chars_of(pattern);
    let pt = trim_chars(&pv);
    if pt.len() == 0 {
        return Err(Error::other(String::from_str("Search pattern required")));
    }
    let full = join_remote_path(base_path, path);
    let mut cmd = if case_insensitive {
        String::from_str("grep -rni ")
    } else {
        String::from_str("grep -rn ")
    };
    let qp = quote_path(pattern);
    cmd.append(qp.as_str());
    cmd.append(" ");
    let qf = quote_path(full.as_str());
    cmd.append(qf.as_str());
    match name_filter {
        Some(n) => {
            cmd.append(" --include=");
            let qn = quote_path(n);
            cmd.append(qn.as_str());
        },
        None => {},
    }
    match max_depth {
        Some(d) => {
            cmd.append(" --max-depth=");
            let digits = u32_chars(d);
            let ds = string_of(&digits);
            cmd.append(ds.as_str());
        },
        None => {},
    }
    cmd.append(" 2>/dev/null");
    proof {
        assert(cmd@ =~= spec_grep_cmd(
            pattern@,
            spec_join_remote(base_path@, path@),
            match name_filter {
                Some(n) => Some(n@),
                None => None,
            },
            max_depth,
            case_insensitive,
        ));
    }
    Ok((cmd, full))
}

/// Maps what the remote listing command returned: its parsed entries on
/// success, its error output behind the listing failure marker otherwise.
pub fn list_outcome(
    base_path: &str,
    path: &str,
    success: bool,
    stdout: &str,
    stderr: &str,
) -> (r: Result<ListResult, Error>)
    ensures
        r is Ok <==> success,
        match r {
            Ok(lr) => {
                &&& lr.base_path matches Some(b) && b@ == base_path@
                &&& lr.path@ == spec_join_remote(base_path@, path@)
                &&& lr.entries@.len() == spec_ls_entries(
                    spec_lines(stdout@),
                    spec_join_remote(base_path@, path@),
                ).len()
                &&& lr.entries@.map_values(|e: FileEntry| file_entry_model(e)).to_multiset()
                    == spec_ls_entries(
                    spec_lines(stdout@),
                    spec_join_remote(base_path@, path@),
                ).to_multiset()
                &&& forall|i: int, j: int|
                    0 <= i < j < lr.entries@.len() ==> entry_le(lr.entries@[i], lr.entries@[j])
            },
            Err(e) => e.code == ErrorCode::Other && e.message@ == "LIST_FAILED: "@ + stderr@,
        },
{
    let full = join_remote_path(base_path, path);
    if !success {
        let mut msg = String::from_str("LIST_FAILED: ");
        msg.append(stderr);
        return Err(Error::other(msg));
    }
    let entries = parse_ls_output(stdout, full.as_str());
    Ok(ListResult { base_path: Some(String::from_str(base_path)), path: full, entries })
}

/// Maps what the remote read command returned: the content on success, its
/// error output behind the read failure marker otherwise.
pub fn read_outcome(
    base_path: &str,
    path: &str,
    success: bool,
    stdout: String,
    stderr: &str,
) -> (r: Result<ReadResult, Error>)
    ensures
        r is Ok <==> success,
        match r {
            Ok(rr) => {
                &&& rr.base_path matches Some(b) && b@ == base_path@
                &&& rr.path@ == spec_join_remote(base_path@, path@)
                &&& rr.content@ == stdout@
            },
            Err(e) => e.code == ErrorCode::Other && e.message@ == "READ_FAILED: "@ + stderr@,
        },
{
    let full = join_remote_path(base_path, path);
    if !success {
        let mut msg = String::from_str("READ_FAILED: ");
        msg.append(stderr);
        return Err(Error::other(msg));
    }
    Ok(ReadResult { base_path: Some(String::from_str(base_path)), path: full, content: stdout })
}

/// Maps what the remote write command returned: how many bytes the content
/// holds on success, the error output behind the write failure marker
/// otherwise.
pub fn write_outcome(
    base_path: &str,
    path: &str,
    content: &str,
    success: bool,
    stderr: &str,
) -> (r: Result<WriteResult, Error>)
    ensures
        r is Ok <==> success,
        match r {
            Ok(wr) => {
                &&& wr.base_path matches Some(b) && b@ == base_path@
                &&& wr.path@ == spec_join_remote(base_path@, path@)
                &&& wr.bytes_written == content.spec_bytes().len() as usize
            },
            Err(e) => e.code == ErrorCode::Other && e.message@ == "WRITE_FAILED: "@ + stderr@,
        },
{
    let full = join_remote_path(base_path, path);
    if !success {
        let mut msg = String::from_str("WRITE_FAILED: ");
        msg.append(stderr);
        return Err(Error::other(msg));
    }
    Ok(
        WriteResult {
            base_path: Some(String::from_str(base_path)),
            path: full,
            bytes_written: content.len(),
        },
    )
}

/// Maps what the remote delete command returned.
pub fn delete_outcome(
    base_path: &str,
    path: &str,
    recursive: bool,
    success: bool,
    stderr: &str,
) -> (r: Result<DeleteResult, Error>)
    ensures
        r is Ok <==> success,
        match r {
            Ok(dr) => {
                &&& dr.base_path matches Some(b) && b@ == base_path@
                &&& dr.path@ == spec_join_remote(base_path@, path@)
                &&& dr.recursive == recursive
            },
            Err(e) => e.code == ErrorCode::Other && e.message@ == "DELETE_FAILED: "@ + stderr@,
        },
{
    let full = join_remote_path(base_path, path);
    if !success {
        let mut msg = String::from_str("DELETE_FAILED: ");
        msg.append(stderr);
        return Err(Error::other(msg));
    }
    Ok(DeleteResult { base_path: Some(String::from_str(base_path)), path: full, recursive })
}

/// Maps what the remote rename command returned.
pub fn rename_outcome(
    base_path: &str,
    old_path: &str,
    new_path: &str,
    success: bool,
    stderr: &str,
) -> (r: Result<RenameResult, Error>)
    ensures
        r is Ok <==> success,
        match r {
            Ok(rr) => {
                &&& rr.base_path matches Some(b) && b@ == base_path@
                &&& rr.old_path@ == spec_join_remote(base_path@, old_path@)
                &&& rr.new_path@ == spec_join_remote(base_path@, new_path@)
            },
            Err(e) => e.code == ErrorCode::Other && e.message@ == "RENAME_FAILED: "@ + stderr@,
        },
{
    let full_old = join_remote_path(base_path, old_path);
    let full_new = join_remote_path(base_path, new_path);
    if !success {
        let mut msg = String::from_str("RENAME_FAILED: ");
        msg.append(stderr);
        return Err(Error::other(msg));
    }
    Ok(
        RenameResult {
            base_path: Some(String::from_str(base_path)),
            old_path: full_old,
            new_path: full_new,
        },
    )
}

/// Assembles a search result: find reports success even with no matches, so
/// every non-empty output line counts.
pub fn find_outcome(
    base_path: &str,
    path: &str,
    name_pattern: Option<&str>,
    stdout: &str,
) -> (r: FindResult)
    ensures
        r.base_path matches Some(b) && b@ == base_path@,
        r.path@ == spec_join_remote(base_path@, path@),
        r.matches.deep_view() == spec_find_matches(spec_lines(stdout@)),
        crate::version::opt_string_view(r.pattern) == (match name_pattern {
            Some(n) => Some(n@),
            None => None,
        }),
{
    let full = join_remote_path(base_path, path);
    let matches = parse_find_output(stdout);
    FindResult {
        base_path: Some(String::from_str(base_path)),
        path: full,
        pattern: match name_pattern {
            Some(n) => Some(String::from_str(n)),
            None => None,
        },
        matches,
    }
}

/// Assembles a content-search result: a missing match is not an error, so
/// only the parsed lines count.
pub fn grep_outcome(base_path: &str, path: &str, pattern: &str, stdout: &str) -> (r: GrepResult)
    ensures
        r.base_path matches Some(b) && b@ == base_path@,
        r.path@ == spec_join_remote(base_path@, path@),
        r.pattern@ == pattern@,
        r.matches@.map_values(|m: GrepMatch| grep_match_model(m)) == spec_grep_matches(
            spec_lines(stdout@),
        ),
{
    let full = join_remote_path(base_path, path);
    let matches = parse_grep_output(stdout);
    GrepResult {
        base_path: Some(String::from_str(base_path)),
        path: full,
        pattern: String::from_str(pattern),
        matches,
    }
}

} // verus!
