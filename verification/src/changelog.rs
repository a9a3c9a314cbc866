//! Changelog handling: pulling the latest release's notes out of a changelog.

use vstd::prelude::*;

use crate::text::{
    join_chars, lines_of, spec_is_digit, spec_join, spec_lines, spec_starts_with, spec_trim,
    starts_with_chars, string_of, trim_chars,
};

verus! {

/// The text holds a `digits.digits.digits` token: two dots with a digit
/// before the first, a digit after the second, and only digits between them.
pub open spec fn has_semver_token(s: Seq<char>) -> bool {
    exists|j: int, k: int|
        {
            &&& 1 <= j
            &&& j + 2 <= k
            &&& k + 1 < s.len()
            &&& #[trigger] s[j] == '.'
            &&& #[trigger] s[k] == '.'
            &&& spec_is_digit(s[j - 1])
            &&& spec_is_digit(s[k + 1])
            &&& forall|t: int| j < t < k ==> spec_is_digit(s[t])
        }
}

fn is_digit(c: char) -> (r: bool)
    ensures
        r == spec_is_digit(c),
{
    '0' <= c && c <= '9'
}

/// Scans for a version token.
fn find_semver_token(v: &Vec<char>) -> (r: bool)
    ensures
        r == has_semver_token(v@),
{
    let n = v.len();
    let mut j: usize = 1;
    while j < n
        invariant
            1 <= j <= n || (n == 0 && j == 1),
            n == v@.len(),
            forall|j0: int, k0: int|
                {
                    &&& 1 <= j0 < j
                    &&& j0 + 2 <= k0
                    &&& k0 + 1 < v@.len()
                    &&& #[trigger] v@[j0] == '.'
                    &&& #[trigger] v@[k0] == '.'
                    &&& spec_is_digit(v@[j0 - 1])
                    &&& spec_is_digit(v@[k0 + 1])
                    &&& (forall|t: int| j0 < t < k0 ==> spec_is_digit(v@[t]))
                } ==> false,
        decreases n - j,
    {
        if v[j] == '.' && is_digit(v[j - 1]) {
            // Walk the digit run after this dot, then expect the second dot.
            let mut k: usize = j + 1;
            while k < n && '0' <= v[k] && v[k] <= '9'
                invariant
                    j + 1 <= k <= n,
                    n == v@.len(),
                    forall|t: int| j < t < k ==> spec_is_digit(v@[t]),
                decreases n - k,
            {
                k = k + 1;
            }
            if k < n && v[k] == '.' && k >= j + 2 && k + 1 < n && is_digit(v[k + 1]) {
                assert(has_semver_token(v@)) by {
                    assert(v@[j as int] == '.' && v@[k as int] == '.');
                }
                return true;
            }
            // No token with its first dot here: any candidate second dot k0
            // would need only digits strictly between, but the run of digits
            // after j ends before a usable second dot.
            proof {
                assert forall|k0: int|
                    {
                        &&& j + 2 <= k0
                        &&& k0 + 1 < v@.len()
                        &&& #[trigger] v@[k0] == '.'
                        &&& spec_is_digit(v@[k0 + 1])
                        &&& (forall|t: int| j < t < k0 ==> spec_is_digit(v@[t]))
                    } implies false by {
                    if k0 < k as int {
                        // k0 lies inside the digit run, so v@[k0] is a digit,
                        // not a dot.
                        if j < k0 < k {
                            assert(spec_is_digit(v@[k0]));
                        }
                        assert(false);
                    } else if k0 == k as int {
                        // The exec check rejected this k.
                        assert(false);
                    } else {
                        // v@[k] sits strictly between j and k0 and is not a digit.
                        if k < n {
                            assert(!spec_is_digit(v@[k as int]));
                            assert(spec_is_digit(v@[k as int]));
                        } else {
                            assert(k0 + 1 < v@.len());
                            assert(false);
                        }
                    }
                }
            }
        }
        j = j + 1;
    }
    proof {
        if has_semver_token(v@) {
            let (j0, k0) = choose|j0: int, k0: int|
                {
                    &&& 1 <= j0
                    &&& j0 + 2 <= k0
                    &&& k0 + 1 < v@.len()
                    &&& #[trigger] v@[j0] == '.'
                    &&& #[trigger] v@[k0] == '.'
                    &&& spec_is_digit(v@[j0 - 1])
                    &&& spec_is_digit(v@[k0 + 1])
                    &&& (forall|t: int| j0 < t < k0 ==> spec_is_digit(v@[t]))
                };
            assert(j0 < j);
            assert(false);
        }
    }
    false
}

/// A line that opens a section: it begins, after trimming, with `## `.
pub open spec fn is_heading(l: Seq<char>) -> bool {
    spec_starts_with(spec_trim(l), "## "@)
}

/// A heading that names a release: it carries a version token.
pub open spec fn is_version_heading(l: Seq<char>) -> bool {
    is_heading(l) && has_semver_token(spec_trim(l))
}

/// The lines collected for the latest release: everything after the first
/// version heading, up to the next heading of any kind.
pub open spec fn collect_notes(ls: Seq<Seq<char>>, in_section: bool) -> Seq<Seq<char>>
    decreases ls.len(),
{
    if ls.len() == 0 {
        Seq::empty()
    } else {
        let l = ls[0];
        if is_heading(l) {
            if in_section {
                Seq::empty()
            } else if is_version_heading(l) {
                collect_notes(ls.drop_first(), true)
            } else {
                collect_notes(ls.drop_first(), false)
            }
        } else if in_section {
            seq![l] + collect_notes(ls.drop_first(), true)
        } else {
            collect_notes(ls.drop_first(), false)
        }
    }
}

/// What extraction yields: the collected lines joined with newlines and
/// trimmed; an empty result means no notes, reported as absent.
pub open spec fn spec_extract_latest_notes(content: Seq<char>) -> Option<Seq<char>> {
    let joined = spec_join(collect_notes(spec_lines(content), false), seq!['\n']);
    let trimmed = spec_trim(joined);
    if trimmed.len() == 0 {
        None
    } else {
        Some(trimmed)
    }
}

/// Extracts the latest release's notes from changelog text: the lines between
/// the first version heading and the next heading, trimmed. Returns None when
/// nothing but whitespace is found.
pub fn extract_latest_notes(content: &str) -> (r: Option<String>)
    ensures
        match r {
            Some(s) => spec_extract_latest_notes(content@) == Some(s@),
            None => spec_extract_latest_notes(content@) is None,
        },
{
    let ls = lines_of(content);
    let ghost all = ls.deep_view();
    let mut collected: Vec<Vec<char>> = Vec::new();
    let mut in_section = false;
    let mut i: usize = 0;
    let mut stopped = false;
    proof {
        assert(all.subrange(0, all.len() as int) =~= all);
        assert(collected.deep_view() =~= Seq::<Seq<char>>::empty());
    }
    while i < ls.len() && !stopped
        invariant
            0 <= i <= ls.len(),
            all == ls.deep_view(),
            all.len() == ls.len(),
            !stopped ==> collect_notes(all, false) =~= collected.deep_view() + collect_notes(
                all.subrange(i as int, all.len() as int),
                in_section,
            ),
            stopped ==> collect_notes(all, false) =~= collected.deep_view(),
        decreases ls.len() - i,
    {
        let line = &ls[i];
        proof {
            assert(all[i as int] == ls@[i as int].deep_view());
            assert(all[i as int] =~= line@);
        }
        let ghost tail = all.subrange(i as int, all.len() as int);
        let ghost tail2 = all.subrange(i + 1, all.len() as int);
        proof {
            assert(tail.len() > 0);
            assert(tail[0] == all[i as int]);
            assert(tail.drop_first() =~= tail2);
        }
        let trimmed = trim_chars(line);
        let mut marker: Vec<char> = Vec::new();
        marker.push('#');
        marker.push('#');
        marker.push(' ');
        proof {
            reveal_strlit("## ");
            assert(marker@ =~= "## "@);
        }
        let heading = starts_with_chars(&trimmed, &marker);
        if heading {
            if in_section {
                stopped = true;
                proof {
                    assert(collect_notes(tail, in_section) =~= Seq::<Seq<char>>::empty());
                    assert(collected.deep_view() + Seq::<Seq<char>>::empty()
                        =~= collected.deep_view());
                }
            } else {
                let versioned = find_semver_token(&trimmed);
                if versioned {
                    in_section = true;
                }
                proof {
                    if versioned {
                        assert(collect_notes(tail, false) == collect_notes(tail2, true));
                    } else {
                        assert(collect_notes(tail, false) == collect_notes(tail2, false));
                    }
                }
            }
        } else {
            if in_section {
                let mut copy: Vec<char> = Vec::new();
                let mut z: usize = 0;
                while z < line.len()
                    invariant
                        0 <= z <= line@.len(),
                        copy@ == line@.subrange(0, z as int),
                    decreases line@.len() - z,
                {
                    copy.push(line[z]);
                    proof {
                        assert(copy@ =~= line@.subrange(0, z + 1));
                    }
                    z = z + 1;
                }
                proof {
                    assert(copy@ =~= line@);
                }
                let ghost old_collected = collected.deep_view();
                collected.push(copy);
                proof {
                    assert(collected.deep_view() =~~= old_collected.push(line@));
                    assert(collect_notes(tail, true) == seq![tail[0]] + collect_notes(
                        tail2,
                        true,
                    ));
                    assert(old_collected + (seq![tail[0]] + collect_notes(tail2, true))
                        =~~= collected.deep_view() + collect_notes(tail2, true));
                }
            } else {
                proof {
                    assert(collect_notes(tail, false) == collect_notes(tail2, false));
                }
            }
        }
        i = i + 1;
    }
    proof {
        if !stopped {
            let tail = all.subrange(i as int, all.len() as int);
            assert(tail.len() == 0);
            assert(collect_notes(tail, in_section) =~= Seq::<Seq<char>>::empty());
            assert(collect_notes(all, false) =~= collected.deep_view());
        }
    }
    let mut nl: Vec<char> = Vec::new();
    nl.push('\n');
    proof {
        assert(nl@ =~= seq!['\n']);
    }
    let joined = join_chars(&collected, &nl);
    let trimmed = trim_chars(&joined);
    if trimmed.len() == 0 {
        assert(spec_extract_latest_notes(content@) is None);
        None
    } else {
        let out = string_of(&trimmed);
        assert(spec_extract_latest_notes(content@) == Some(out@));
        Some(out)
    }
}

/// A changelog with no version heading yields no notes: nothing is ever
/// collected, so extraction reports absence rather than an empty string.
pub proof fn lemma_no_version_heading_no_notes(content: Seq<char>)
    requires
        forall|i: int|
            0 <= i < spec_lines(content).len() ==> !is_version_heading(
                #[trigger] spec_lines(content)[i],
            ),
    ensures
        spec_extract_latest_notes(content) is None,
{
    lemma_collect_nothing(spec_lines(content));
    assert(spec_join(collect_notes(spec_lines(content), false), seq!['\n'])
        =~= Seq::<char>::empty());
    assert(spec_trim(Seq::<char>::empty()).len() == 0) by {
        assert(spec_trim(Seq::<char>::empty()) =~= Seq::<char>::empty());
    }
}

proof fn lemma_collect_nothing(ls: Seq<Seq<char>>)
    requires
        forall|i: int| 0 <= i < ls.len() ==> !is_version_heading(#[trigger] ls[i]),
    ensures
        collect_notes(ls, false) == Seq::<Seq<char>>::empty(),
    decreases ls.len(),
{
    if ls.len() == 0 {
    } else {
        assert(!is_version_heading(ls[0]));
        assert forall|i: int| 0 <= i < ls.drop_first().len() implies !is_version_heading(
            #[trigger] ls.drop_first()[i],
        ) by {
            assert(ls.drop_first()[i] == ls[i + 1]);
        }
        lemma_collect_nothing(ls.drop_first());
    }
}

proof fn lemma_collect_skip_nonversion(ls: Seq<Seq<char>>, i: int)
    requires
        0 <= i <= ls.len(),
        forall|k: int| 0 <= k < i ==> !is_version_heading(#[trigger] ls[k]),
    ensures
        collect_notes(ls, false) == collect_notes(ls.subrange(i, ls.len() as int), false),
    decreases i,
{
    if i == 0 {
        assert(ls.subrange(0, ls.len() as int) =~= ls);
    } else {
        assert(ls.len() > 0);
        assert(!is_version_heading(ls[0]));
        assert(ls.drop_first() =~= ls.subrange(1, ls.len() as int));
        assert(collect_notes(ls, false) == collect_notes(ls.drop_first(), false));
        assert forall|k: int| 0 <= k < i - 1 implies !is_version_heading(
            #[trigger] ls.drop_first()[k],
        ) by {
            assert(ls.drop_first()[k] == ls[k + 1]);
        }
        lemma_collect_skip_nonversion(ls.drop_first(), i - 1);
        assert(ls.drop_first().subrange(i - 1, ls.drop_first().len() as int) =~= ls.subrange(
            i,
            ls.len() as int,
        ));
    }
}

proof fn lemma_collect_section(ls: Seq<Seq<char>>, m: int)
    requires
        0 <= m <= ls.len(),
        forall|k: int| 0 <= k < m ==> !is_heading(#[trigger] ls[k]),
        m < ls.len() ==> is_heading(ls[m]),
    ensures
        collect_notes(ls, true) == ls.subrange(0, m),
    decreases m,
{
    if ls.len() == 0 {
        assert(ls.subrange(0, 0) =~= Seq::<Seq<char>>::empty());
    } else if m == 0 {
        assert(is_heading(ls[0]));
        assert(collect_notes(ls, true) == Seq::<Seq<char>>::empty());
        assert(ls.subrange(0, 0) =~= Seq::<Seq<char>>::empty());
    } else {
        assert(!is_heading(ls[0]));
        assert(collect_notes(ls, true) == seq![ls[0]] + collect_notes(ls.drop_first(), true));
        assert(ls.drop_first() =~= ls.subrange(1, ls.len() as int));
        assert forall|k: int| 0 <= k < m - 1 implies !is_heading(
            #[trigger] ls.drop_first()[k],
        ) by {
            assert(ls.drop_first()[k] == ls[k + 1]);
        }
        if m - 1 < ls.drop_first().len() {
            assert(ls.drop_first()[m - 1] == ls[m]);
        }
        lemma_collect_section(ls.drop_first(), m - 1);
        assert(collect_notes(ls, true) =~= seq![ls[0]] + ls.drop_first().subrange(0, m - 1));
        assert(seq![ls[0]] + ls.drop_first().subrange(0, m - 1) =~= ls.subrange(0, m));
    }
}

/// The notes are exactly the lines strictly between the first version
/// heading and the next heading of any kind (or the end of the text), joined
/// with newlines and trimmed; a whitespace-only section is reported absent.
pub proof fn lemma_notes_between_headings(content: Seq<char>, i: int, j: int)
    requires
        0 <= i < j <= spec_lines(content).len(),
        is_version_heading(spec_lines(content)[i]),
        forall|k: int| 0 <= k < i ==> !is_version_heading(#[trigger] spec_lines(content)[k]),
        forall|k: int| i < k < j ==> !is_heading(#[trigger] spec_lines(content)[k]),
        j < spec_lines(content).len() ==> is_heading(spec_lines(content)[j]),
    ensures
        ({
            let section = spec_lines(content).subrange(i + 1, j);
            let text = spec_trim(spec_join(section, seq!['\n']));
            spec_extract_latest_notes(content) == (if text.len() == 0 {
                None
            } else {
                Some(text)
            })
        }),
{
    let ls = spec_lines(content);
    lemma_collect_skip_nonversion(ls, i);
    let tail = ls.subrange(i, ls.len() as int);
    assert(tail.len() > 0);
    assert(tail[0] == ls[i]);
    assert(is_version_heading(tail[0]));
    assert(collect_notes(tail, false) == collect_notes(tail.drop_first(), true));
    let tail2 = tail.drop_first();
    assert(tail2 =~= ls.subrange(i + 1, ls.len() as int));
    let m = j - (i + 1);
    assert forall|k: int| 0 <= k < m implies !is_heading(#[trigger] tail2[k]) by {
        assert(tail2[k] == ls[i + 1 + k]);
    }
    if m < tail2.len() {
        assert(tail2[m] == ls[j]);
    }
    lemma_collect_section(tail2, m);
    assert(collect_notes(ls, false) =~= tail2.subrange(0, m));
    assert(tail2.subrange(0, m) =~= ls.subrange(i + 1, j));
}

} // verus!
