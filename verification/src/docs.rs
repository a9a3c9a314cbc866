//! Documentation topics: how a user's topic words become the key of an
//! embedded documentation page. The page table itself is a plain value the
//! caller supplies.

use vstd::prelude::*;

use crate::text::{
    chars_of, join_chars, lower_of, spec_join, spec_replace_char, spec_split, spec_trim,
    split_chars, string_of,
};
use crate::token::normalize_doc_segment;

verus! {

/// One normalized topic segment: trimmed, lowercased, spaces and tabs dashed.
pub open spec fn seg_norm(s: Seq<char>) -> Seq<char> {
    spec_replace_char(spec_replace_char(lower_of(spec_trim(s)), ' ', '-'), '\t', '-')
}

/// Only the non-empty pieces, in order.
pub open spec fn nonempty_only(ss: Seq<Seq<char>>) -> Seq<Seq<char>>
    decreases ss.len(),
{
    if ss.len() == 0 {
        Seq::empty()
    } else {
        (if ss[0].len() > 0 {
            seq![ss[0]]
        } else {
            Seq::empty()
        }) + nonempty_only(ss.drop_first())
    }
}

/// The normalized segments of one raw topic word: split at slashes, each
/// piece normalized, empties dropped.
pub open spec fn word_segments(raw: Seq<char>) -> Seq<Seq<char>> {
    nonempty_only(spec_split(raw, '/').map_values(|p: Seq<char>| seg_norm(p)))
}

/// All normalized segments of a topic, in order.
pub open spec fn all_segments(topic: Seq<Seq<char>>) -> Seq<Seq<char>>
    decreases topic.len(),
{
    if topic.len() == 0 {
        Seq::empty()
    } else {
        word_segments(topic[0]) + all_segments(topic.drop_first())
    }
}

/// The documentation key of a topic: segments joined with slashes, or the
/// index page when nothing usable remains.
pub open spec fn spec_topic_key(topic: Seq<Seq<char>>) -> Seq<char> {
    if topic.len() == 0 {
        "index"@
    } else if all_segments(topic).len() == 0 {
        "index"@
    } else {
        spec_join(all_segments(topic), "/"@)
    }
}

/// The label shown for a topic: the user's words joined with spaces; the
/// index page for no words, unknown when nothing usable remains.
pub open spec fn spec_topic_label(topic: Seq<Seq<char>>) -> Seq<char> {
    if topic.len() == 0 {
        "index"@
    } else if all_segments(topic).len() == 0 {
        "unknown"@
    } else if spec_join(topic, " "@).len() == 0 {
        "unknown"@
    } else {
        spec_join(topic, " "@)
    }
}

/// Normalizes a topic into its display label and lookup key.
pub fn normalize_topic(topic: &Vec<String>) -> (r: (String, String))
    ensures
        r.0@ == spec_topic_label(topic.deep_view()),
        r.1@ == spec_topic_key(topic.deep_view()),
{
    let ghost tv = topic.deep_view();
    if topic.len() == 0 {
        proof {
            assert(tv.len() == 0);
        }
        return (String::from_str("index"), String::from_str("index"));
    }
    let mut segments: Vec<Vec<char>> = Vec::new();
    let mut i: usize = 0;
    proof {
        assert(tv.subrange(0, tv.len() as int) =~= tv);
        assert(segments.deep_view() =~= Seq::<Seq<char>>::empty());
        assert(all_segments(tv) =~= segments.deep_view() + all_segments(
            tv.subrange(0, tv.len() as int),
        ));
    }
    while i < topic.len()
        invariant
            0 <= i <= topic.len(),
            tv == topic.deep_view(),
            tv.len() == topic.len(),
            all_segments(tv) =~~= segments.deep_view() + all_segments(
                tv.subrange(i as int, tv.len() as int),
            ),
        decreases topic.len() - i,
    {
        let raw = &topic[i];
        proof {
            assert(tv[i as int] == topic@[i as int]@);
        }
        let ghost tail = tv.subrange(i as int, tv.len() as int);
        let ghost tail2 = tv.subrange(i + 1, tv.len() as int);
        proof {
            assert(tail.len() > 0);
            assert(tail[0] == tv[i as int]);
            assert(tail.drop_first() =~= tail2);
            assert(all_segments(tail) == word_segments(tail[0]) + all_segments(tail2));
        }
        let rv = chars_of(raw.as_str());
        let parts = split_chars(&rv, '/');
        let ghost norm_parts = spec_split(tv[i as int], '/').map_values(
            |p: Seq<char>| seg_norm(p),
        );
        let ghost seg0 = segments.deep_view();
        let mut k: usize = 0;
        proof {
            assert(norm_parts.subrange(0, norm_parts.len() as int) =~= norm_parts);
            assert(parts.deep_view().len() == norm_parts.len());
        }
        while k < parts.len()
            invariant
                0 <= k <= parts.len(),
                parts.deep_view().len() == parts.len(),
                parts.deep_view() == spec_split(tv[i as int], '/'),
                norm_parts == spec_split(tv[i as int], '/').map_values(
                    |p: Seq<char>| seg_norm(p),
                ),
                0 <= i < tv.len(),
                tv == topic.deep_view(),
                segments.deep_view() + nonempty_only(
                    norm_parts.subrange(k as int, norm_parts.len() as int),
                ) =~~= seg0 + nonempty_only(norm_parts),
            decreases parts.len() - k,
        {
            let part = &parts[k];
            proof {
                assert(parts.deep_view()[k as int] == parts@[k as int]@);
            }
            let ps = string_of(part);
            let norm = normalize_doc_segment(ps.as_str());
            let ghost ntail = norm_parts.subrange(k as int, norm_parts.len() as int);
            let ghost ntail2 = norm_parts.subrange(k + 1, norm_parts.len() as int);
            proof {
                assert(ntail.len() > 0);
                assert(ntail[0] == norm_parts[k as int]);
                assert(norm_parts[k as int] == seg_norm(parts.deep_view()[k as int]));
                assert(norm@ == ntail[0]);
                assert(ntail.drop_first() =~= ntail2);
            }
            if norm.as_str().is_empty() {
                proof {
                    assert(nonempty_only(ntail) =~~= nonempty_only(ntail2));
                }
            } else {
                let nv = chars_of(norm.as_str());
                let ghost old_segs = segments.deep_view();
                segments.push(nv);
                proof {
                    assert(segments.deep_view() =~~= old_segs.push(norm@));
                    assert(nonempty_only(ntail) =~~= seq![ntail[0]] + nonempty_only(ntail2));
                    assert(segments.deep_view() + nonempty_only(ntail2) =~~= old_segs
                        + nonempty_only(ntail));
                }
            }
            k = k + 1;
        }
        proof {
            assert(norm_parts.subrange(k as int, norm_parts.len() as int).len() == 0);
            assert(nonempty_only(norm_parts.subrange(k as int, norm_parts.len() as int))
                =~= Seq::<Seq<char>>::empty());
            assert(segments.deep_view() =~~= seg0 + nonempty_only(norm_parts));
            assert(word_segments(tail[0]) == nonempty_only(norm_parts));
            assert(segments.deep_view() + all_segments(tail2) =~~= seg0 + all_segments(tail));
        }
        i = i + 1;
    }
    proof {
        assert(tv.subrange(i as int, tv.len() as int).len() == 0);
        assert(all_segments(tv.subrange(i as int, tv.len() as int))
            =~= Seq::<Seq<char>>::empty());
        assert(segments.deep_view() =~~= all_segments(tv));
    }
    let mut sep: Vec<char> = Vec::new();
    sep.push(' ');
    let mut user_words: Vec<Vec<char>> = Vec::new();
    let mut i2: usize = 0;
    while i2 < topic.len()
        invariant
            0 <= i2 <= topic.len(),
            tv == topic.deep_view(),
            tv.len() == topic.len(),
            user_words.deep_view() =~~= tv.subrange(0, i2 as int),
        decreases topic.len() - i2,
    {
        let wv = chars_of(topic[i2].as_str());
        let ghost old_words = user_words.deep_view();
        user_words.push(wv);
        proof {
            assert(user_words.deep_view() =~~= old_words.push(tv[i2 as int]));
            assert(user_words.deep_view() =~~= tv.subrange(0, i2 + 1));
        }
        i2 = i2 + 1;
    }
    proof {
        assert(user_words.deep_view() =~~= tv);
        reveal_strlit(" ");
        assert(sep@ =~= " "@);
    }
    let label_chars = join_chars(&user_words, &sep);

    if segments.len() == 0 {
        proof {
            assert(all_segments(tv).len() == 0);
        }
        return (String::from_str("unknown"), String::from_str("index"));
    }
    let mut slash: Vec<char> = Vec::new();
    slash.push('/');
    proof {
        reveal_strlit("/");
        assert(slash@ =~= "/"@);
    }
    let key_chars = join_chars(&segments, &slash);
    let key = string_of(&key_chars);
    if label_chars.len() == 0 {
        return (String::from_str("unknown"), key);
    }
    let label = string_of(&label_chars);
    (label, key)
}

/// The content stored under a key, when the table has it.
pub open spec fn spec_docs_lookup(
    docs: Seq<(Seq<char>, Seq<char>)>,
    key: Seq<char>,
) -> Option<Seq<char>>
    decreases docs.len(),
{
    if docs.len() == 0 {
        None
    } else if docs[0].0 == key {
        Some(docs[0].1)
    } else {
        spec_docs_lookup(docs.drop_first(), key)
    }
}

/// Resolves a topic against a documentation table: the display label and the
/// page content, empty when the key is unknown.
pub fn resolve(topic: &Vec<String>, docs: &Vec<(String, String)>) -> (r: (String, String))
    ensures
        r.0@ == spec_topic_label(topic.deep_view()),
        r.1@ == (match spec_docs_lookup(docs.deep_view(), spec_topic_key(topic.deep_view())) {
            Some(content) => content,
            None => Seq::<char>::empty(),
        }),
{
    let (label, key) = normalize_topic(topic);
    let ghost dv = docs.deep_view();
    let mut i: usize = 0;
    proof {
        assert(dv.subrange(0, dv.len() as int) =~= dv);
    }
    while i < docs.len()
        invariant
            0 <= i <= docs.len(),
            dv == docs.deep_view(),
            dv.len() == docs.len(),
            key@ == spec_topic_key(topic.deep_view()),
            label@ == spec_topic_label(topic.deep_view()),
            spec_docs_lookup(dv, key@) == spec_docs_lookup(
                dv.subrange(i as int, dv.len() as int),
                key@,
            ),
        decreases docs.len() - i,
    {
        let ghost tail = dv.subrange(i as int, dv.len() as int);
        let ghost tail2 = dv.subrange(i + 1, dv.len() as int);
        proof {
            assert(tail.len() > 0);
            assert(tail[0] == dv[i as int]);
            assert(dv[i as int] == (docs@[i as int].0@, docs@[i as int].1@));
            assert(tail.drop_first() =~= tail2);
        }
        if docs[i].0.eq(&key) {
            return (label, docs[i].1.clone());
        }
        i = i + 1;
    }
    proof {
        assert(dv.subrange(i as int, dv.len() as int).len() == 0);
        assert(spec_docs_lookup(dv, key@) is None);
    }
    (label, String::new())
}

} // verus!
