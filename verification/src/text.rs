//! Character-level string utilities shared by the whole library.
//!
//! Strings are processed as vectors of characters so that every
//! transformation can be specified over `Seq<char>` views.

use vstd::prelude::*;

verus! {

/// Relies on str::chars and Iterator::collect: yields the characters of the
/// string in order.
#[verifier::external_body]
pub fn chars_of(s: &str) -> (r: Vec<char>)
    ensures
        r@ == s@,
{
    s.chars().collect()
}

/// Relies on Iterator::collect for String: concatenates the characters in order.
#[verifier::external_body]
pub fn string_of(chars: &Vec<char>) -> (r: String)
    ensures
        r@ == chars@,
{
    chars.iter().collect()
}

/// Names the result of char::is_whitespace, which depends on the character alone.
pub uninterp spec fn is_whitespace_char(c: char) -> bool;

/// Relies on char::is_whitespace: true exactly for characters with the Unicode
/// White_Space property; space, tab, carriage return and line feed are among them.
#[verifier::external_body]
pub fn whitespace_char(c: char) -> (r: bool)
    ensures
        r == is_whitespace_char(c),
        c == ' ' ==> r,
        c == '\t' ==> r,
        c == '\n' ==> r,
        c == '\r' ==> r,
{
    c.is_whitespace()
}

/// Names the result of str::to_lowercase, which depends on the characters alone.
pub uninterp spec fn lower_of(s: Seq<char>) -> Seq<char>;

/// Relies on str::to_lowercase: the lowercase mapping of the string, a function
/// of its characters alone; an empty string stays empty.
#[verifier::external_body]
pub fn lowercase(s: &str) -> (r: String)
    ensures
        r@ == lower_of(s@),
        s@.len() == 0 ==> r@.len() == 0,
{
    s.to_lowercase()
}

/// Index of the first character that is not whitespace, or the length if all are.
pub open spec fn first_non_ws(s: Seq<char>) -> int
    decreases s.len(),
{
    if s.len() == 0 {
        0
    } else if is_whitespace_char(s[0]) {
        1 + first_non_ws(s.drop_first())
    } else {
        0
    }
}

/// Index one past the last character that is not whitespace, or 0 if all are.
pub open spec fn last_non_ws(s: Seq<char>) -> int
    decreases s.len(),
{
    if s.len() == 0 {
        0
    } else if is_whitespace_char(s[s.len() - 1]) {
        last_non_ws(s.drop_last())
    } else {
        s.len() as int
    }
}

/// What str::trim returns: the slice between the outermost non-whitespace characters.
pub open spec fn spec_trim(s: Seq<char>) -> Seq<char> {
    let lo = first_non_ws(s);
    let hi = last_non_ws(s);
    if lo <= hi {
        s.subrange(lo, hi)
    } else {
        Seq::empty()
    }
}

proof fn lemma_first_non_ws_bounds(s: Seq<char>)
    ensures
        0 <= first_non_ws(s) <= s.len(),
        forall|i: int| 0 <= i < first_non_ws(s) ==> is_whitespace_char(s[i]),
        first_non_ws(s) < s.len() ==> !is_whitespace_char(s[first_non_ws(s)]),
    decreases s.len(),
{
    if s.len() == 0 {
    } else if is_whitespace_char(s[0]) {
        lemma_first_non_ws_bounds(s.drop_first());
        assert forall|i: int| 0 <= i < first_non_ws(s) implies is_whitespace_char(s[i]) by {
            if i > 0 {
                assert(s.drop_first()[i - 1] == s[i]);
            }
        }
        if first_non_ws(s) < s.len() {
            assert(s.drop_first()[first_non_ws(s) - 1] == s[first_non_ws(s)]);
        }
    } else {
    }
}

proof fn lemma_last_non_ws_bounds(s: Seq<char>)
    ensures
        0 <= last_non_ws(s) <= s.len(),
        forall|i: int| last_non_ws(s) <= i < s.len() ==> is_whitespace_char(s[i]),
        last_non_ws(s) > 0 ==> !is_whitespace_char(s[last_non_ws(s) - 1]),
    decreases s.len(),
{
    if s.len() == 0 {
    } else if is_whitespace_char(s[s.len() - 1]) {
        lemma_last_non_ws_bounds(s.drop_last());
        assert forall|i: int| last_non_ws(s) <= i < s.len() implies is_whitespace_char(s[i]) by {
            if i < s.len() - 1 {
                assert(s.drop_last()[i] == s[i]);
            }
        }
        if last_non_ws(s) > 0 {
            assert(s.drop_last()[last_non_ws(s) - 1] == s[last_non_ws(s) - 1]);
        }
    } else {
    }
}

/// Removes leading and trailing whitespace, as str::trim does.
pub fn trim_chars(v: &Vec<char>) -> (r: Vec<char>)
    ensures
        r@ == spec_trim(v@),
{
    let ghost s = v@;
    proof {
        lemma_first_non_ws_bounds(s);
        lemma_last_non_ws_bounds(s);
    }
    let n = v.len();
    let mut lo: usize = 0;
    while lo < n && whitespace_char(v[lo])
        invariant
            0 <= lo <= n,
            n == s.len(),
            v@ == s,
            forall|i: int| 0 <= i < lo ==> is_whitespace_char(s[i]),
            lo <= first_non_ws(s),
        decreases n - lo,
    {
        proof {
            lemma_first_non_ws_step(s, lo as int);
        }
        lo = lo + 1;
    }
    proof {
        if lo < n {
            assert(!is_whitespace_char(s[lo as int]));
            if (lo as int) < first_non_ws(s) {
                lemma_first_non_ws_bounds(s);
                assert(is_whitespace_char(s[lo as int]));
            }
            assert(lo == first_non_ws(s));
        } else {
            lemma_first_non_ws_bounds(s);
            if first_non_ws(s) < s.len() {
                assert(!is_whitespace_char(s[first_non_ws(s)]));
                assert(is_whitespace_char(s[first_non_ws(s)]));
            }
            assert(lo == first_non_ws(s));
        }
    }
    let mut hi: usize = n;
    while hi > lo && whitespace_char(v[hi - 1])
        invariant
            lo <= hi <= n,
            n == s.len(),
            v@ == s,
            lo == first_non_ws(s),
            forall|i: int| hi <= i < s.len() ==> is_whitespace_char(s[i]),
            last_non_ws(s) <= hi,
        decreases hi,
    {
        proof {
            lemma_last_non_ws_step(s, hi as int);
        }
        hi = hi - 1;
    }
    proof {
        lemma_last_non_ws_bounds(s);
        if hi > lo {
            assert(!is_whitespace_char(s[hi - 1]));
            if last_non_ws(s) < hi as int {
                assert(is_whitespace_char(s[hi - 1]));
            }
            assert(hi == last_non_ws(s));
        } else {
            // hi == lo: everything from lo on is whitespace, and everything
            // before lo is whitespace, so last_non_ws can be at most lo.
            if last_non_ws(s) > lo {
                assert(is_whitespace_char(s[last_non_ws(s) - 1]));
                assert(!is_whitespace_char(s[last_non_ws(s) - 1]));
            }
            assert(spec_trim(s) =~= s.subrange(lo as int, lo as int)) by {
                if last_non_ws(s) < lo {
                    lemma_first_non_ws_bounds(s);
                    assert(is_whitespace_char(s[last_non_ws(s)]));
                }
            }
        }
    }
    let mut out: Vec<char> = Vec::new();
    let mut i: usize = lo;
    while i < hi
        invariant
            lo <= i <= hi <= n,
            n == s.len(),
            v@ == s,
            out@ == s.subrange(lo as int, i as int),
        decreases hi - i,
    {
        out.push(v[i]);
        proof {
            assert(out@ =~= s.subrange(lo as int, i + 1));
        }
        i = i + 1;
    }
    proof {
        if lo < hi {
            assert(lo == first_non_ws(s) && hi == last_non_ws(s));
            assert(out@ =~= spec_trim(s));
        } else {
            assert(out@ =~= spec_trim(s));
        }
    }
    out
}

proof fn lemma_first_non_ws_step(s: Seq<char>, k: int)
    requires
        0 <= k < s.len(),
        forall|i: int| 0 <= i < k ==> is_whitespace_char(s[i]),
        is_whitespace_char(s[k]),
    ensures
        first_non_ws(s) >= k + 1,
{
    lemma_first_non_ws_bounds(s);
    if first_non_ws(s) < k + 1 {
        assert(!is_whitespace_char(s[first_non_ws(s)]));
        assert(is_whitespace_char(s[first_non_ws(s)]));
    }
}

proof fn lemma_last_non_ws_step(s: Seq<char>, k: int)
    requires
        0 < k <= s.len(),
        forall|i: int| k <= i < s.len() ==> is_whitespace_char(s[i]),
        is_whitespace_char(s[k - 1]),
    ensures
        last_non_ws(s) <= k - 1,
{
    lemma_last_non_ws_bounds(s);
    if last_non_ws(s) > k - 1 {
        assert(!is_whitespace_char(s[last_non_ws(s) - 1]));
        assert(is_whitespace_char(s[last_non_ws(s) - 1]));
    }
}

/// Removes leading and trailing whitespace from a string.
pub fn trim_str(s: &str) -> (r: String)
    ensures
        r@ == spec_trim(s@),
{
    let v = chars_of(s);
    let t = trim_chars(&v);
    string_of(&t)
}

/// True when `hay` has `pre` as a prefix.
pub open spec fn spec_starts_with(hay: Seq<char>, pre: Seq<char>) -> bool {
    pre.len() <= hay.len() && hay.subrange(0, pre.len() as int) == pre
}

pub fn starts_with_chars(hay: &Vec<char>, pre: &Vec<char>) -> (r: bool)
    ensures
        r == spec_starts_with(hay@, pre@),
{
    if pre.len() > hay.len() {
        assert(!spec_starts_with(hay@, pre@));
        return false;
    }
    let mut i: usize = 0;
    while i < pre.len()
        invariant
            0 <= i <= pre.len() <= hay.len(),
            forall|j: int| 0 <= j < i ==> hay@[j] == pre@[j],
        decreases pre.len() - i,
    {
        if hay[i] != pre[i] {
            assert(hay@.subrange(0, pre@.len() as int)[i as int] != pre@[i as int]);
            return false;
        }
        i = i + 1;
    }
    assert(hay@.subrange(0, pre@.len() as int) =~= pre@);
    true
}

/// True when `hay` has `suf` as a suffix.
pub open spec fn spec_ends_with(hay: Seq<char>, suf: Seq<char>) -> bool {
    suf.len() <= hay.len() && hay.subrange(hay.len() - suf.len(), hay.len() as int) == suf
}

pub fn ends_with_chars(hay: &Vec<char>, suf: &Vec<char>) -> (r: bool)
    ensures
        r == spec_ends_with(hay@, suf@),
{
    if suf.len() > hay.len() {
        assert(!spec_ends_with(hay@, suf@));
        return false;
    }
    let off = hay.len() - suf.len();
    let mut i: usize = 0;
    while i < suf.len()
        invariant
            0 <= i <= suf.len() <= hay.len(),
            off == hay.len() - suf.len(),
            forall|j: int| 0 <= j < i ==> hay@[off + j] == suf@[j],
        decreases suf.len() - i,
    {
        if hay[off + i] != suf[i] {
            let ghost tail = hay@.subrange(hay@.len() - suf@.len(), hay@.len() as int);
            assert(tail[i as int] != suf@[i as int]);
            return false;
        }
        i = i + 1;
    }
    assert(hay@.subrange(hay@.len() - suf@.len(), hay@.len() as int) =~= suf@);
    true
}

pub fn str_starts_with(hay: &str, pre: &str) -> (r: bool)
    ensures
        r == spec_starts_with(hay@, pre@),
{
    let h = chars_of(hay);
    let p = chars_of(pre);
    starts_with_chars(&h, &p)
}

pub fn str_ends_with(hay: &str, suf: &str) -> (r: bool)
    ensures
        r == spec_ends_with(hay@, suf@),
{
    let h = chars_of(hay);
    let s = chars_of(suf);
    ends_with_chars(&h, &s)
}

/// True when `needle` occurs in `hay` as a contiguous run.
pub open spec fn spec_contains(hay: Seq<char>, needle: Seq<char>) -> bool {
    exists|k: int|
        0 <= k <= hay.len() - needle.len() && #[trigger] hay.subrange(k, k + needle.len())
            == needle
}

pub fn contains_chars(hay: &Vec<char>, needle: &Vec<char>) -> (r: bool)
    ensures
        r == spec_contains(hay@, needle@),
{
    if needle.len() > hay.len() {
        return false;
    }
    let last = hay.len() - needle.len();
    let mut k: usize = 0;
    while k <= last
        invariant
            0 <= k <= last + 1,
            last == hay.len() - needle.len(),
            needle.len() <= hay.len(),
            forall|m: int|
                0 <= m < k ==> #[trigger] hay@.subrange(m, m + needle@.len()) != needle@,
        decreases last + 1 - k,
    {
        let mut i: usize = 0;
        let mut matches = true;
        while i < needle.len()
            invariant
                0 <= i <= needle.len(),
                k + needle.len() <= hay.len(),
                matches <==> forall|j: int| 0 <= j < i ==> hay@[k + j] == needle@[j],
            decreases needle.len() - i,
        {
            if hay[k + i] != needle[i] {
                matches = false;
                i = needle.len();
            } else {
                i = i + 1;
            }
        }
        if matches {
            assert(hay@.subrange(k as int, k + needle@.len()) =~= needle@);
            return true;
        }
        assert(hay@.subrange(k as int, k + needle@.len()) != needle@) by {
            if hay@.subrange(k as int, k + needle@.len()) == needle@ {
                assert(forall|j: int|
                    0 <= j < needle@.len() ==> hay@[k + j] == #[trigger] hay@.subrange(
                        k as int,
                        k + needle@.len(),
                    )[j]);
            }
        }
        k = k + 1;
    }
    false
}

pub fn str_contains(hay: &str, needle: &str) -> (r: bool)
    ensures
        r == spec_contains(hay@, needle@),
{
    let h = chars_of(hay);
    let n = chars_of(needle);
    contains_chars(&h, &n)
}

/// The decimal digits of `n`, most significant first.
pub open spec fn spec_u32_str(n: nat) -> Seq<char>
    decreases n,
{
    let digit = seq![spec_digit_char((n % 10) as nat)];
    if n < 10 {
        digit
    } else {
        spec_u32_str((n / 10) as nat) + digit
    }
}

pub open spec fn spec_digit_char(d: nat) -> char {
    if d == 0 {
        '0'
    } else if d == 1 {
        '1'
    } else if d == 2 {
        '2'
    } else if d == 3 {
        '3'
    } else if d == 4 {
        '4'
    } else if d == 5 {
        '5'
    } else if d == 6 {
        '6'
    } else if d == 7 {
        '7'
    } else if d == 8 {
        '8'
    } else {
        '9'
    }
}

fn digit_char(d: u32) -> (r: char)
    requires
        d < 10,
    ensures
        r == spec_digit_char(d as nat),
{
    if d == 0 {
        '0'
    } else if d == 1 {
        '1'
    } else if d == 2 {
        '2'
    } else if d == 3 {
        '3'
    } else if d == 4 {
        '4'
    } else if d == 5 {
        '5'
    } else if d == 6 {
        '6'
    } else if d == 7 {
        '7'
    } else if d == 8 {
        '8'
    } else {
        '9'
    }
}

/// Writes `n` in decimal.
pub fn u32_chars(n: u32) -> (r: Vec<char>)
    ensures
        r@ == spec_u32_str(n as nat),
{
    let mut digits: Vec<char> = Vec::new();
    let mut rest = n;
    loop
        invariant_except_break
            spec_u32_str(n as nat) == spec_u32_str(rest as nat) + digits@,
        ensures
            spec_u32_str(n as nat) == digits@,
        decreases rest,
    {
        let d = rest % 10;
        let ghost old_digits = digits@;
        let ghost old_rest = rest as nat;
        digits.insert(0, digit_char(d));
        proof {
            assert(digits@ =~= seq![spec_digit_char((old_rest % 10) as nat)] + old_digits);
        }
        rest = rest / 10;
        if rest == 0 {
            proof {
                assert(spec_u32_str(old_rest) =~= seq![
                    spec_digit_char((old_rest % 10) as nat),
                ]) by {
                    if old_rest >= 10 {
                    }
                }
                assert(spec_u32_str(n as nat) =~= digits@);
            }
            break;
        }
        proof {
            assert(spec_u32_str(old_rest) == spec_u32_str(old_rest / 10) + seq![
                spec_digit_char((old_rest % 10) as nat),
            ]);
            assert(spec_u32_str(old_rest) + old_digits =~= spec_u32_str(old_rest / 10)
                + digits@);
        }
    }
    digits
}

/// The numeric value of a decimal digit sequence, or None when the sequence is
/// empty or holds a non-digit.
pub open spec fn spec_parse_u32(s: Seq<char>) -> Option<nat>
    decreases s.len(),
{
    if s.len() == 0 {
        None
    } else if !spec_is_digit(s[s.len() - 1]) {
        None
    } else if s.len() == 1 {
        Some(spec_digit_val(s[0]))
    } else {
        match spec_parse_u32(s.drop_last()) {
            None => None,
            Some(hi) => Some(hi * 10 + spec_digit_val(s[s.len() - 1])),
        }
    }
}

pub open spec fn spec_is_digit(c: char) -> bool {
    '0' <= c && c <= '9'
}

pub open spec fn spec_digit_val(c: char) -> nat {
    (c as nat - '0' as nat) as nat
}

/// Parses a run of decimal digits as a u32; None on an empty run, a non-digit,
/// or a value that does not fit.
pub fn parse_u32_chars(v: &Vec<char>) -> (r: Option<u32>)
    ensures
        match r {
            Some(x) => spec_parse_u32(v@) == Some(x as nat),
            None => spec_parse_u32(v@) is None || (spec_parse_u32(v@) matches Some(x) && x
                > u32::MAX),
        },
{
    if v.len() == 0 {
        return None;
    }
    let mut acc: u32 = 0;
    let mut i: usize = 0;
    while i < v.len()
        invariant
            0 <= i <= v@.len(),
            v@.len() > 0,
            i == 0 ==> acc == 0,
            i > 0 ==> spec_parse_u32(v@.subrange(0, i as int)) == Some(acc as nat),
        decreases v@.len() - i,
    {
        let c = v[i];
        if c < '0' || c > '9' {
            proof {
                lemma_parse_u32_bad_digit(v@, i as int);
            }
            return None;
        }
        let d = (c as u32) - ('0' as u32);
        let next = match acc.checked_mul(10) {
            Some(m) => m.checked_add(d),
            None => None,
        };
        match next {
            None => {
                proof {
                    lemma_parse_u32_grows(v@, i as int, acc as nat, d as nat, u32::MAX as nat);
                }
                return None;
            }
            Some(a2) => {
                let ghost prev = v@.subrange(0, i as int);
                proof {
                    let cur = v@.subrange(0, i + 1);
                    assert(cur.drop_last() =~= prev);
                    assert(cur[cur.len() - 1] == v@[i as int]);
                    assert(spec_is_digit(v@[i as int]));
                    assert(spec_digit_val(v@[i as int]) == d as nat);
                    if i == 0 {
                        assert(cur.len() == 1);
                        assert(spec_parse_u32(cur) == Some(spec_digit_val(cur[0])));
                        assert(a2 == d);
                    } else {
                        assert(spec_parse_u32(cur) == Some((acc as nat) * 10 + spec_digit_val(
                            cur[cur.len() - 1],
                        )));
                    }
                }
                acc = a2;
            }
        }
        i = i + 1;
    }
    proof {
        assert(v@.subrange(0, v@.len() as int) =~= v@);
    }
    Some(acc)
}

pub proof fn lemma_parse_u32_bad_digit(s: Seq<char>, i: int)
    requires
        0 <= i < s.len(),
        !spec_is_digit(s[i]),
    ensures
        spec_parse_u32(s) is None,
    decreases s.len(),
{
    if s.len() == 0 {
    } else if i == s.len() - 1 {
    } else {
        lemma_parse_u32_bad_digit(s.drop_last(), i);
    }
}

proof fn lemma_parse_u32_prefix_bound(s: Seq<char>, i: int)
    requires
        0 < i <= s.len(),
        spec_parse_u32(s) matches Some(x),
    ensures
        spec_parse_u32(s.subrange(0, i)) matches Some(y) && (spec_parse_u32(s) matches Some(x)
            ==> y <= x),
    decreases s.len() - i,
{
    if i == s.len() {
        assert(s.subrange(0, i) =~= s);
    } else {
        lemma_parse_u32_prefix_bound(s, i + 1);
        let p1 = s.subrange(0, i + 1);
        let p0 = s.subrange(0, i);
        assert(p1.drop_last() =~= p0);
        assert(spec_parse_u32(p1) matches Some(_));
        assert(p1.len() > 0);
        if p1.len() == 1 {
            assert(spec_parse_u32(p0) is None);
            assert(p0.len() == 0);
            assert(false);
        } else {
            assert(spec_parse_u32(p0) matches Some(y) && Some((y * 10 + spec_digit_val(
                p1[p1.len() - 1],
            )) as nat) == spec_parse_u32(p1));
        }
    }
}

pub proof fn lemma_parse_u32_grows(s: Seq<char>, i: int, acc: nat, d: nat, bound: nat)
    requires
        0 <= i < s.len(),
        i > 0 ==> spec_parse_u32(s.subrange(0, i)) == Some(acc),
        i == 0 ==> acc == 0,
        spec_is_digit(s[i]),
        spec_digit_val(s[i]) == d,
        acc * 10 + d > bound,
    ensures
        spec_parse_u32(s) is None || (spec_parse_u32(s) matches Some(x) && x > bound),
    decreases s.len(),
{
    let p1 = s.subrange(0, i + 1);
    assert(p1.drop_last() =~= s.subrange(0, i));
    if i == 0 {
        assert(p1.len() == 1);
        assert(spec_parse_u32(p1) == Some(spec_digit_val(p1[0])));
        assert(spec_digit_val(p1[0]) == d);
        assert(acc == 0);
    }
    assert(spec_parse_u32(p1) == Some((acc * 10 + d) as nat));
    match spec_parse_u32(s) {
        Some(x) => {
            lemma_parse_u32_prefix_bound(s, i + 1);
            assert(x >= acc * 10 + d);
        }
        None => {}
    }
}

/// Splits at every occurrence of `sep`; the separators are not kept.
pub open spec fn spec_split(s: Seq<char>, sep: char) -> Seq<Seq<char>>
    decreases s.len(),
{
    if s.len() == 0 {
        seq![Seq::empty()]
    } else if s[0] == sep {
        seq![Seq::<char>::empty()] + spec_split(s.drop_first(), sep)
    } else {
        let rest = spec_split(s.drop_first(), sep);
        seq![seq![s[0]] + rest[0]] + rest.drop_first()
    }
}

/// Splits a character vector at a separator, as str::split does for a char pattern.
pub fn split_chars(v: &Vec<char>, sep: char) -> (r: Vec<Vec<char>>)
    ensures
        r.deep_view() == spec_split(v@, sep),
{
    let mut parts: Vec<Vec<char>> = Vec::new();
    let mut cur: Vec<char> = Vec::new();
    let mut i: usize = 0;
    proof {
        lemma_spec_split_nonempty(v@, sep);
        assert(v@.subrange(0, v@.len() as int) =~= v@);
        assert(parts.deep_view() + seq![cur@ + spec_split(v@, sep)[0]] + spec_split(
            v@,
            sep,
        ).drop_first() =~~= spec_split(v@, sep));
    }
    while i < v.len()
        invariant
            0 <= i <= v@.len(),
            spec_split(v@, sep) == parts.deep_view() + seq![cur@ + spec_split(
                v@.subrange(i as int, v@.len() as int),
                sep,
            )[0]] + spec_split(v@.subrange(i as int, v@.len() as int), sep).drop_first(),
        decreases v@.len() - i,
    {
        let ghost tail = v@.subrange(i as int, v@.len() as int);
        let ghost tail2 = v@.subrange(i + 1, v@.len() as int);
        let ghost rest = spec_split(tail2, sep);
        proof {
            assert(tail.len() > 0);
            assert(tail[0] == v@[i as int]);
            assert(tail.drop_first() =~= tail2);
            lemma_spec_split_nonempty(tail2, sep);
        }
        if v[i] == sep {
            let ghost old_parts = parts.deep_view();
            let ghost old_cur = cur@;
            let done = cur;
            parts.push(done);
            cur = Vec::new();
            proof {
                assert(parts.deep_view() =~~= old_parts.push(old_cur));
                assert(spec_split(tail, sep) == seq![Seq::<char>::empty()] + rest);
                assert(spec_split(tail, sep)[0] =~= Seq::<char>::empty());
                assert(spec_split(tail, sep).drop_first() =~= rest);
                assert(old_parts + seq![old_cur + spec_split(tail, sep)[0]] + spec_split(
                    tail,
                    sep,
                ).drop_first() =~~= old_parts.push(old_cur) + seq![Seq::<char>::empty()
                    + rest[0]] + rest.drop_first());
                assert(parts.deep_view() + seq![cur@ + rest[0]] + rest.drop_first()
                    =~~= spec_split(v@, sep));
            }
        } else {
            let c = v[i];
            let ghost old_cur = cur@;
            cur.push(c);
            proof {
                assert(cur@ == old_cur.push(tail[0]));
                assert(spec_split(tail, sep) == seq![seq![tail[0]] + rest[0]]
                    + rest.drop_first());
                assert(spec_split(tail, sep)[0] == seq![tail[0]] + rest[0]);
                assert(spec_split(tail, sep).drop_first() =~= rest.drop_first());
                assert(old_cur + (seq![tail[0]] + rest[0]) =~= cur@ + rest[0]);
                assert(parts.deep_view() + seq![cur@ + rest[0]] + rest.drop_first()
                    =~~= spec_split(v@, sep));
            }
        }
        i = i + 1;
    }
    proof {
        let tail = v@.subrange(i as int, v@.len() as int);
        assert(tail.len() == 0);
        assert(spec_split(tail, sep) == seq![Seq::<char>::empty()]);
        assert(spec_split(tail, sep).drop_first() =~= Seq::<Seq<char>>::empty());
    }
    let ghost old_parts = parts.deep_view();
    let ghost old_cur = cur@;
    let last = cur;
    parts.push(last);
    proof {
        assert(parts.deep_view() =~~= old_parts.push(old_cur));
        assert(parts.deep_view() =~~= spec_split(v@, sep));
    }
    parts
}

/// The lines of `s`: split at '\n', with a trailing '\r' removed from each
/// piece, and without a final empty piece after a trailing newline, as
/// str::lines does.
pub open spec fn spec_lines(s: Seq<char>) -> Seq<Seq<char>> {
    let raw = spec_split(s, '\n');
    let cut = if s.len() > 0 && s[s.len() - 1] == '\n' {
        raw.drop_last()
    } else {
        raw
    };
    cut.map(|i: int, l: Seq<char>| if l.len() > 0 && l[l.len() - 1] == '\r' {
        l.drop_last()
    } else {
        l
    })
}

/// Splits a string into its lines, as str::lines does.
pub fn lines_of(s: &str) -> (r: Vec<Vec<char>>)
    ensures
        r.deep_view() == spec_lines(s@),
{
    let v = chars_of(s);
    let mut raw = split_chars(&v, '\n');
    let ghost raw0 = raw.deep_view();
    if v.len() > 0 && v[v.len() - 1] == '\n' {
        proof {
            assert(raw.deep_view().len() == spec_split(v@, '\n').len());
            lemma_spec_split_nonempty(v@, '\n');
        }
        let _ = raw.pop();
        proof {
            assert(raw.deep_view() =~~= raw0.drop_last());
        }
    }
    let mut out: Vec<Vec<char>> = Vec::new();
    let ghost cut = raw.deep_view();
    let mut i: usize = 0;
    while i < raw.len()
        invariant
            0 <= i <= raw.len(),
            cut == raw.deep_view(),
            out.deep_view() =~= cut.subrange(0, i as int).map(
                |j: int, l: Seq<char>|
                    if l.len() > 0 && l[l.len() - 1] == '\r' {
                        l.drop_last()
                    } else {
                        l
                    },
            ),
        decreases raw.len() - i,
    {
        let line = &raw[i];
        proof {
            assert(cut[i as int] =~= line@);
        }
        let mut stripped: Vec<char> = Vec::new();
        let keep = if line.len() > 0 && line[line.len() - 1] == '\r' {
            line.len() - 1
        } else {
            line.len()
        };
        let mut j: usize = 0;
        while j < keep
            invariant
                0 <= j <= keep <= line@.len(),
                line@ == cut[i as int],
                stripped@ == line@.subrange(0, j as int),
            decreases keep - j,
        {
            stripped.push(line[j]);
            proof {
                assert(stripped@ =~= line@.subrange(0, j + 1));
            }
            j = j + 1;
        }
        proof {
            if line@.len() > 0 && line@[line@.len() - 1] == '\r' {
                assert(stripped@ =~= line@.drop_last());
            } else {
                assert(stripped@ =~= line@);
            }
        }
        let ghost old_out = out.deep_view();
        out.push(stripped);
        proof {
            assert(out.deep_view() =~~= old_out.push(stripped@));
            assert(out.deep_view() =~~= cut.subrange(0, i + 1).map(
                |j: int, l: Seq<char>|
                    if l.len() > 0 && l[l.len() - 1] == '\r' {
                        l.drop_last()
                    } else {
                        l
                    },
            ));
        }
        i = i + 1;
    }
    proof {
        assert(cut.subrange(0, cut.len() as int) =~= cut);
        assert(out.deep_view() =~~= spec_lines(s@));
    }
    out
}

proof fn lemma_spec_split_nonempty(s: Seq<char>, sep: char)
    ensures
        spec_split(s, sep).len() >= 1,
    decreases s.len(),
{
    if s.len() == 0 {
    } else if s[0] == sep {
        lemma_spec_split_nonempty(s.drop_first(), sep);
    } else {
        lemma_spec_split_nonempty(s.drop_first(), sep);
    }
}

/// Three-way lexicographic comparison of character sequences, by code point,
/// as str::cmp orders strings.
pub open spec fn spec_lex_cmp(a: Seq<char>, b: Seq<char>) -> core::cmp::Ordering
    decreases a.len(),
{
    if a.len() == 0 && b.len() == 0 {
        core::cmp::Ordering::Equal
    } else if a.len() == 0 {
        core::cmp::Ordering::Less
    } else if b.len() == 0 {
        core::cmp::Ordering::Greater
    } else if a[0] != b[0] {
        if a[0] < b[0] {
            core::cmp::Ordering::Less
        } else {
            core::cmp::Ordering::Greater
        }
    } else {
        spec_lex_cmp(a.drop_first(), b.drop_first())
    }
}

pub fn lex_cmp_chars(a: &Vec<char>, b: &Vec<char>) -> (r: core::cmp::Ordering)
    ensures
        r == spec_lex_cmp(a@, b@),
{
    let mut i: usize = 0;
    proof {
        assert(a@.subrange(0, a@.len() as int) =~= a@);
        assert(b@.subrange(0, b@.len() as int) =~= b@);
    }
    while i < a.len() && i < b.len()
        invariant
            0 <= i <= a@.len(),
            i <= b@.len(),
            spec_lex_cmp(a@, b@) == spec_lex_cmp(
                a@.subrange(i as int, a@.len() as int),
                b@.subrange(i as int, b@.len() as int),
            ),
        decreases a@.len() - i,
    {
        let ghost ta = a@.subrange(i as int, a@.len() as int);
        let ghost tb = b@.subrange(i as int, b@.len() as int);
        proof {
            assert(ta[0] == a@[i as int]);
            assert(tb[0] == b@[i as int]);
            assert(ta.drop_first() =~= a@.subrange(i + 1, a@.len() as int));
            assert(tb.drop_first() =~= b@.subrange(i + 1, b@.len() as int));
        }
        if a[i] < b[i] {
            return core::cmp::Ordering::Less;
        }
        if b[i] < a[i] {
            return core::cmp::Ordering::Greater;
        }
        assert(a@[i as int] == b@[i as int]);
        i = i + 1;
    }
    let ghost ta = a@.subrange(i as int, a@.len() as int);
    let ghost tb = b@.subrange(i as int, b@.len() as int);
    if a.len() == b.len() {
        assert(ta.len() == 0 && tb.len() == 0);
        core::cmp::Ordering::Equal
    } else if a.len() < b.len() {
        assert(ta.len() == 0 && tb.len() > 0);
        core::cmp::Ordering::Less
    } else {
        assert(tb.len() == 0 && ta.len() > 0);
        core::cmp::Ordering::Greater
    }
}

/// Joins the pieces with a separator between them; empty input joins to empty.
pub open spec fn spec_join(parts: Seq<Seq<char>>, sep: Seq<char>) -> Seq<char>
    decreases parts.len(),
{
    if parts.len() == 0 {
        Seq::empty()
    } else if parts.len() == 1 {
        parts[0]
    } else {
        parts[0] + sep + spec_join(parts.drop_first(), sep)
    }
}

proof fn lemma_join_snoc(parts: Seq<Seq<char>>, sep: Seq<char>, x: Seq<char>)
    ensures
        parts.len() == 0 ==> spec_join(parts.push(x), sep) == x,
        parts.len() > 0 ==> spec_join(parts.push(x), sep) =~= spec_join(parts, sep) + sep + x,
    decreases parts.len(),
{
    if parts.len() == 0 {
        assert(parts.push(x)[0] == x);
        assert(spec_join(parts.push(x), sep) == x);
    } else {
        let p = parts.push(x);
        assert(p.len() >= 2);
        assert(p[0] == parts[0]);
        assert(p.drop_first() =~= parts.drop_first().push(x));
        lemma_join_snoc(parts.drop_first(), sep, x);
        if parts.len() == 1 {
            assert(parts.drop_first().len() == 0);
            assert(spec_join(p, sep) == parts[0] + sep + x);
            assert(spec_join(parts, sep) == parts[0]);
        } else {
            assert(spec_join(p, sep) == p[0] + sep + spec_join(p.drop_first(), sep));
            assert(spec_join(parts, sep) == parts[0] + sep + spec_join(
                parts.drop_first(),
                sep,
            ));
        }
    }
}

/// Appends every character of `src` to `out`.
pub fn push_all(out: &mut Vec<char>, src: &Vec<char>)
    ensures
        final(out)@ == old(out)@ + src@,
{
    let mut j: usize = 0;
    while j < src.len()
        invariant
            0 <= j <= src@.len(),
            out@ == old(out)@ + src@.subrange(0, j as int),
        decreases src@.len() - j,
    {
        out.push(src[j]);
        proof {
            assert(old(out)@ + src@.subrange(0, j + 1) =~= (old(out)@ + src@.subrange(
                0,
                j as int,
            )).push(src@[j as int]));
        }
        j = j + 1;
    }
    proof {
        assert(src@.subrange(0, src@.len() as int) =~= src@);
    }
}

pub fn join_chars(parts: &Vec<Vec<char>>, sep: &Vec<char>) -> (r: Vec<char>)
    ensures
        r@ == spec_join(parts.deep_view(), sep@),
{
    let mut out: Vec<char> = Vec::new();
    let ghost pv = parts.deep_view();
    let mut i: usize = 0;
    while i < parts.len()
        invariant
            0 <= i <= parts.len(),
            pv == parts.deep_view(),
            pv.len() == parts.len(),
            out@ == spec_join(pv.subrange(0, i as int), sep@),
        decreases parts.len() - i,
    {
        proof {
            assert(pv[i as int] == parts@[i as int]@);
        }
        if i > 0 {
            push_all(&mut out, sep);
        }
        push_all(&mut out, &parts[i]);
        proof {
            let pre = pv.subrange(0, i as int);
            assert(pv.subrange(0, i + 1) =~= pre.push(pv[i as int]));
            lemma_join_snoc(pre, sep@, pv[i as int]);
            if i == 0 {
                assert(spec_join(pre, sep@) == Seq::<char>::empty());
                assert(out@ =~= spec_join(pv.subrange(0, i + 1), sep@));
            } else {
                assert(out@ =~= spec_join(pre, sep@) + sep@ + pv[i as int]);
            }
        }
        i = i + 1;
    }
    proof {
        assert(pv.subrange(0, pv.len() as int) =~= pv);
    }
    out
}

/// The decimal form of a signed number: a minus sign for negatives, then digits.
pub open spec fn spec_i32_str(n: int) -> Seq<char> {
    if n < 0 {
        seq!['-'] + spec_u32_str((-n) as nat)
    } else {
        spec_u32_str(n as nat)
    }
}

/// Writes `n` in decimal, with a leading minus sign when negative.
pub fn i32_chars(n: i32) -> (r: Vec<char>)
    ensures
        r@ == spec_i32_str(n as int),
{
    if n >= 0 {
        u32_chars(n as u32)
    } else {
        let m: u32 = if n == i32::MIN {
            2147483648u32
        } else {
            (-n) as u32
        };
        assert(m as nat == (-(n as int)) as nat);
        let digits = u32_chars(m);
        let mut out: Vec<char> = Vec::new();
        out.push('-');
        push_all(&mut out, &digits);
        proof {
            assert(out@ =~= spec_i32_str(n as int));
        }
        out
    }
}

/// A replacement pass: every occurrence of `from` becomes the sequence `to`.
pub open spec fn spec_replace(s: Seq<char>, from: char, to: Seq<char>) -> Seq<char>
    decreases s.len(),
{
    if s.len() == 0 {
        Seq::empty()
    } else {
        (if s[0] == from {
            to
        } else {
            seq![s[0]]
        }) + spec_replace(s.drop_first(), from, to)
    }
}

proof fn lemma_replace_snoc(s: Seq<char>, x: char, from: char, to: Seq<char>)
    ensures
        x == from ==> spec_replace(s.push(x), from, to) == spec_replace(s, from, to) + to,
        x != from ==> spec_replace(s.push(x), from, to) == spec_replace(s, from, to) + seq![x],
    decreases s.len(),
{
    let p = s.push(x);
    let tail_bit = if x == from {
        to
    } else {
        seq![x]
    };
    if s.len() == 0 {
        assert(p[0] == x);
        assert(p.drop_first() =~= Seq::<char>::empty());
        assert(spec_replace(p, from, to) == tail_bit + spec_replace(Seq::<char>::empty(), from, to));
        assert(tail_bit + Seq::<char>::empty() =~= Seq::<char>::empty() + tail_bit);
        assert(spec_replace(s, from, to) == Seq::<char>::empty());
    } else {
        assert(p[0] == s[0]);
        assert(p.drop_first() =~= s.drop_first().push(x));
        lemma_replace_snoc(s.drop_first(), x, from, to);
        let head = if s[0] == from {
            to
        } else {
            seq![s[0]]
        };
        assert(spec_replace(p, from, to) == head + spec_replace(p.drop_first(), from, to));
        assert(spec_replace(p.drop_first(), from, to) == spec_replace(s.drop_first(), from, to)
            + tail_bit);
        assert(spec_replace(s, from, to) == head + spec_replace(s.drop_first(), from, to));
        assert(head + (spec_replace(s.drop_first(), from, to) + tail_bit) =~= (head
            + spec_replace(s.drop_first(), from, to)) + tail_bit);
    }
}

/// Replaces every occurrence of the character `from` with the characters of `to`.
pub fn replace_char_with(v: &Vec<char>, from: char, to: &Vec<char>) -> (r: Vec<char>)
    ensures
        r@ == spec_replace(v@, from, to@),
{
    let mut out: Vec<char> = Vec::new();
    let mut i: usize = 0;
    proof {
        assert(v@.subrange(0, 0) =~= Seq::<char>::empty());
    }
    while i < v.len()
        invariant
            0 <= i <= v@.len(),
            out@ == spec_replace(v@.subrange(0, i as int), from, to@),
        decreases v@.len() - i,
    {
        let c = v[i];
        if c == from {
            push_all(&mut out, to);
        } else {
            out.push(c);
        }
        proof {
            let pre = v@.subrange(0, i as int);
            assert(v@.subrange(0, i + 1) =~= pre.push(v@[i as int]));
            lemma_replace_snoc(pre, v@[i as int], from, to@);
            assert(out@ =~= spec_replace(v@.subrange(0, i + 1), from, to@));
        }
        i = i + 1;
    }
    proof {
        assert(v@.subrange(0, v@.len() as int) =~= v@);
    }
    out
}

/// Maps every occurrence of the character `from` to the character `to`.
pub open spec fn spec_replace_char(s: Seq<char>, from: char, to: char) -> Seq<char> {
    s.map(|i: int, c: char| if c == from {
        to
    } else {
        c
    })
}

pub fn replace_char(v: &Vec<char>, from: char, to: char) -> (r: Vec<char>)
    ensures
        r@ == spec_replace_char(v@, from, to),
{
    let mut out: Vec<char> = Vec::new();
    let mut i: usize = 0;
    while i < v.len()
        invariant
            0 <= i <= v@.len(),
            out@ =~= v@.subrange(0, i as int).map(
                |k: int, c: char|
                    if c == from {
                        to
                    } else {
                        c
                    },
            ),
        decreases v@.len() - i,
    {
        let c = v[i];
        if c == from {
            out.push(to);
        } else {
            out.push(c);
        }
        proof {
            assert(out@ =~= v@.subrange(0, i + 1).map(
                |k: int, c: char|
                    if c == from {
                        to
                    } else {
                        c
                    },
            ));
        }
        i = i + 1;
    }
    proof {
        assert(v@.subrange(0, v@.len() as int) =~= v@);
        assert(out@ =~= spec_replace_char(v@, from, to));
    }
    out
}

/// Swapping the arguments of the comparison mirrors its verdict.
pub proof fn lemma_lex_cmp_flip(a: Seq<char>, b: Seq<char>)
    ensures
        (spec_lex_cmp(a, b) == core::cmp::Ordering::Less <==> spec_lex_cmp(b, a)
            == core::cmp::Ordering::Greater),
        (spec_lex_cmp(a, b) == core::cmp::Ordering::Equal <==> spec_lex_cmp(b, a)
            == core::cmp::Ordering::Equal),
    decreases a.len(),
{
    if a.len() == 0 && b.len() == 0 {
    } else if a.len() == 0 {
    } else if b.len() == 0 {
    } else if a[0] != b[0] {
    } else {
        lemma_lex_cmp_flip(a.drop_first(), b.drop_first());
    }
}

/// The comparison is transitive in its not-greater form.
pub proof fn lemma_lex_cmp_trans(a: Seq<char>, b: Seq<char>, c: Seq<char>)
    requires
        spec_lex_cmp(a, b) != core::cmp::Ordering::Greater,
        spec_lex_cmp(b, c) != core::cmp::Ordering::Greater,
    ensures
        spec_lex_cmp(a, c) != core::cmp::Ordering::Greater,
    decreases a.len(),
{
    if a.len() == 0 {
    } else if b.len() == 0 {
        assert(spec_lex_cmp(a, b) == core::cmp::Ordering::Greater);
    } else if c.len() == 0 {
        assert(spec_lex_cmp(b, c) == core::cmp::Ordering::Greater);
    } else {
        if a[0] != b[0] {
            assert(a[0] < b[0]);
            if b[0] != c[0] {
                assert(b[0] < c[0]);
            }
            assert(a[0] < c[0] || a[0] == c[0]);
            if a[0] == c[0] {
                assert(a[0] < b[0] && b[0] <= c[0]);
                assert(false);
            }
        } else {
            if b[0] != c[0] {
                assert(b[0] < c[0]);
                assert(a[0] < c[0]);
            } else {
                lemma_lex_cmp_trans(a.drop_first(), b.drop_first(), c.drop_first());
            }
        }
    }
}

} // verus!
