//! Verified string utilities: splitting on a separator character, substring
//! and prefix tests, and joining. These carry the line-oriented configuration
//! parsing and the snapshot manifest format.

use vstd::prelude::*;

verus! {

use vstd::string::StrSliceExecFns;
use vstd::string::StringExecFns;

/// Splitting a character sequence on a separator: the segments between
/// occurrences of `sep`, including the (possibly empty) segments at either
/// end. The result always has one more element than there are separators.
pub open spec fn spec_split(s: Seq<char>, sep: char) -> Seq<Seq<char>>
    decreases s.len(),
{
    if s.len() == 0 {
        seq![s]
    } else if s[0] == sep {
        seq![Seq::<char>::empty()] + spec_split(s.drop_first(), sep)
    } else {
        let rest = spec_split(s.drop_first(), sep);
        seq![seq![s[0]] + rest[0]] + rest.drop_first()
    }
}

/// A split is never empty.
pub proof fn lemma_split_len(s: Seq<char>, sep: char)
    ensures
        spec_split(s, sep).len() >= 1,
    decreases s.len(),
{
    if s.len() == 0 {
    } else {
        lemma_split_len(s.drop_first(), sep);
    }
}

/// A sequence without the separator splits into itself alone.
pub proof fn lemma_split_no_sep(s: Seq<char>, sep: char)
    requires
        forall|j: int| 0 <= j < s.len() ==> s[j] != sep,
    ensures
        spec_split(s, sep) =~~= seq![s],
    decreases s.len(),
{
    if s.len() == 0 {
        assert(spec_split(s, sep) == seq![s]);
    } else {
        lemma_split_no_sep(s.drop_first(), sep);
        let rest = spec_split(s.drop_first(), sep);
        assert(rest == seq![s.drop_first()]);
        assert(seq![s[0]] + rest[0] =~= s);
        assert(rest.drop_first() =~= Seq::<Seq<char>>::empty());
        assert(spec_split(s, sep) =~~= seq![s]);
    }
}

/// Splitting at the first separator: if `s[k]` is the first occurrence of
/// `sep`, the split is the prefix before it followed by the split of what
/// comes after it.
pub proof fn lemma_split_first_sep(s: Seq<char>, sep: char, k: int)
    requires
        0 <= k < s.len(),
        s[k] == sep,
        forall|j: int| 0 <= j < k ==> s[j] != sep,
    ensures
        spec_split(s, sep) =~~= seq![s.take(k)] + spec_split(s.skip(k + 1), sep),
    decreases k,
{
    if k == 0 {
        assert(s.take(0) =~= Seq::<char>::empty());
        assert(s.drop_first() =~= s.skip(1));
    } else {
        let d = s.drop_first();
        lemma_split_first_sep(d, sep, k - 1);
        let rest = spec_split(d, sep);
        assert(rest =~~= seq![d.take(k - 1)] + spec_split(d.skip(k), sep));
        assert(rest[0] == d.take(k - 1));
        assert(seq![s[0]] + d.take(k - 1) =~= s.take(k));
        assert(rest.drop_first() =~~= spec_split(d.skip(k), sep));
        assert(d.skip(k) =~= s.skip(k + 1));
    }
}

/// Splits a string on a separator character. The result has one element for
/// each segment between occurrences of `sep`, end segments included.
pub fn split_char(s: &str, sep: char) -> (r: Vec<String>)
    ensures
        r.deep_view() =~~= spec_split(s@, sep),
{
    let n: usize = s.unicode_len();
    let mut res: Vec<String> = Vec::new();
    let mut b: usize = 0;
    let mut i: usize = 0;
    proof {
        assert(s@.skip(0) =~= s@);
        assert(res.deep_view() =~~= Seq::<Seq<char>>::empty());
        assert(spec_split(s@, sep) =~~= res.deep_view() + spec_split(s@.skip(0), sep));
    }
    while i < n
        invariant
            0 <= b <= i <= n,
            n == s@.len(),
            forall|j: int| b <= j < i ==> s@[j] != sep,
            spec_split(s@, sep) =~~= res.deep_view() + spec_split(s@.skip(b as int), sep),
        decreases n - i,
    {
        if s.get_char(i) == sep {
            let part: String = s.substring_char(b, i).to_owned();
            let ghost prev = res.deep_view();
            proof {
                let tail = s@.skip(b as int);
                assert(forall|j: int| 0 <= j < tail.len() ==> tail[j] == s@[b + j]);
                lemma_split_first_sep(tail, sep, i - b);
                assert(tail.take(i - b) =~= s@.subrange(b as int, i as int));
                assert(tail.skip(i - b + 1) =~= s@.skip(i + 1));
            }
            res.push(part);
            proof {
                assert(res.deep_view() =~~= prev.push(part@));
                assert(prev.push(part@) + spec_split(s@.skip(i + 1), sep) =~~= prev + (seq![part@] + spec_split(s@.skip(i + 1), sep)));
                assert(spec_split(s@, sep) =~~= res.deep_view() + spec_split(s@.skip(i + 1), sep));
            }
            b = i + 1;
        }
        i = i + 1;
    }
    let part: String = s.substring_char(b, n).to_owned();
    let ghost prev = res.deep_view();
    proof {
        let tail = s@.skip(b as int);
        assert(forall|j: int| 0 <= j < tail.len() ==> tail[j] == s@[b + j]);
        lemma_split_no_sep(tail, sep);
        assert(tail =~= s@.subrange(b as int, n as int));
    }
    res.push(part);
    proof {
        assert(res.deep_view() =~~= prev.push(part@));
        assert(prev.push(part@) =~~= prev + seq![part@]);
    }
    res
}

/// A line with a trailing carriage return loses it; any other line is kept
/// as it is.
pub open spec fn spec_trim_cr(l: Seq<char>) -> Seq<char> {
    if l.len() > 0 && l.last() == '\r' {
        l.drop_last()
    } else {
        l
    }
}

/// The lines of a text: the segments between newline characters, each with a
/// trailing carriage return removed.
pub open spec fn spec_lines(s: Seq<char>) -> Seq<Seq<char>> {
    spec_split(s, '\n').map_values(|l: Seq<char>| spec_trim_cr(l))
}

/// Splits a text into lines on newline characters, dropping one trailing
/// carriage return per line.
pub fn split_lines(s: &str) -> (r: Vec<String>)
    ensures
        r.deep_view() =~~= spec_lines(s@),
{
    let raw = split_char(s, '\n');
    let mut res: Vec<String> = Vec::new();
    let mut i: usize = 0;
    proof {
        assert(res.deep_view() =~~= raw.deep_view().take(0).map_values(|l: Seq<char>| spec_trim_cr(l)));
    }
    while i < raw.len()
        invariant
            0 <= i <= raw.len(),
            raw.deep_view() =~~= spec_split(s@, '\n'),
            res.deep_view() =~~= raw.deep_view().take(i as int).map_values(|l: Seq<char>| spec_trim_cr(l)),
        decreases raw.len() - i,
    {
        let line: &String = &raw[i];
        let m: usize = line.as_str().unicode_len();
        let ghost prev = res.deep_view();
        if m > 0 && line.as_str().get_char(m - 1) == '\r' {
            let trimmed: String = line.as_str().substring_char(0, m - 1).to_owned();
            proof {
                assert(line@.subrange(0, m - 1) =~= line@.drop_last());
            }
            res.push(trimmed);
        } else {
            res.push(line.clone());
        }
        proof {
            let rdv = raw.deep_view();
            assert(res.deep_view() =~~= prev.push(spec_trim_cr(rdv[i as int])));
            assert(rdv.take(i + 1) =~~= rdv.take(i as int).push(rdv[i as int]));
            assert(rdv.take(i as int).push(rdv[i as int]).map_values(|l: Seq<char>| spec_trim_cr(l)) =~~= rdv.take(i as int).map_values(|l: Seq<char>| spec_trim_cr(l)).push(spec_trim_cr(rdv[i as int])));
        }
        i = i + 1;
    }
    proof {
        assert(raw.deep_view().take(raw.deep_view().len() as int) =~~= raw.deep_view());
    }
    res
}

/// Whether `sub` occurs in `s` at position `i`.
pub open spec fn matches_at(s: Seq<char>, sub: Seq<char>, i: int) -> bool {
    0 <= i && i + sub.len() <= s.len() && s.subrange(i, i + sub.len()) == sub
}

/// Whether `sub` occurs anywhere in `s`.
pub open spec fn spec_contains_substr(s: Seq<char>, sub: Seq<char>) -> bool {
    exists|i: int| matches_at(s, sub, i)
}

/// Whether `sub` occurs in `s` at position `i`, decided character by
/// character.
fn check_match_at(s: &str, sub: &str, i: usize) -> (r: bool)
    requires
        i + sub@.len() <= s@.len(),
    ensures
        r == matches_at(s@, sub@, i as int),
{
    let n: usize = s.unicode_len();
    let m: usize = sub.unicode_len();
    let mut j: usize = 0;
    while j < m
        invariant
            0 <= j <= m,
            m == sub@.len(),
            n == s@.len(),
            i + m <= s@.len(),
            forall|t: int| 0 <= t < j ==> s@[i + t] == sub@[t],
        decreases m - j,
    {
        if s.get_char(i + j) != sub.get_char(j) {
            proof {
                assert(s@.subrange(i as int, i + m) != sub@) by {
                    assert(s@.subrange(i as int, i + m)[j as int] != sub@[j as int]);
                }
            }
            return false;
        }
        j = j + 1;
    }
    proof {
        assert(s@.subrange(i as int, i + m) =~= sub@);
    }
    true
}

/// Whether `sub` occurs anywhere in `s`.
pub fn contains_substr(s: &str, sub: &str) -> (r: bool)
    ensures
        r == spec_contains_substr(s@, sub@),
{
    let n: usize = s.unicode_len();
    let m: usize = sub.unicode_len();
    if m > n {
        proof {
            assert(forall|i: int| !matches_at(s@, sub@, i));
        }
        return false;
    }
    let mut i: usize = 0;
    while i <= n - m
        invariant
            0 <= i <= n - m + 1,
            m <= n,
            n == s@.len(),
            m == sub@.len(),
            forall|t: int| 0 <= t < i ==> !matches_at(s@, sub@, t),
        decreases n - i,
    {
        if check_match_at(s, sub, i) {
            return true;
        }
        proof {
            assert(m > 0) by {
                if m == 0 {
                    assert(s@.subrange(i as int, i as int) =~= sub@);
                    assert(matches_at(s@, sub@, i as int));
                }
            }
        }
        i = i + 1;
    }
    proof {
        assert(forall|t: int| t > n - m ==> !matches_at(s@, sub@, t));
    }
    false
}

/// Whether `s` begins with `prefix`.
pub open spec fn spec_starts_with(s: Seq<char>, prefix: Seq<char>) -> bool {
    prefix.len() <= s.len() && s.take(prefix.len() as int) == prefix
}

/// Whether `s` begins with `prefix`.
pub fn starts_with(s: &str, prefix: &str) -> (r: bool)
    ensures
        r == spec_starts_with(s@, prefix@),
{
    let n: usize = s.unicode_len();
    let m: usize = prefix.unicode_len();
    if m > n {
        return false;
    }
    let r = check_match_at(s, prefix, 0);
    proof {
        assert(s@.subrange(0, m as int) =~= s@.take(m as int));
    }
    r
}

/// What remains of `s` after a prefix of the given length is removed.
pub fn strip_front(s: &str, k: usize) -> (r: String)
    requires
        k <= s@.len(),
    ensures
        r@ == s@.skip(k as int),
{
    let n: usize = s.unicode_len();
    let r: String = s.substring_char(k, n).to_owned();
    proof {
        assert(s@.subrange(k as int, n as int) =~= s@.skip(k as int));
    }
    r
}

/// Joining segments with a separator string: the segments in order, with one
/// copy of `sep` between each adjacent pair.
pub open spec fn spec_join(parts: Seq<Seq<char>>, sep: Seq<char>) -> Seq<char>
    decreases parts.len(),
{
    if parts.len() == 0 {
        Seq::<char>::empty()
    } else if parts.len() == 1 {
        parts[0]
    } else {
        parts[0] + sep + spec_join(parts.drop_first(), sep)
    }
}

/// Appending one more segment extends a non-empty join by the separator and
/// the segment.
pub proof fn lemma_join_push(parts: Seq<Seq<char>>, sep: Seq<char>, x: Seq<char>)
    requires
        parts.len() >= 1,
    ensures
        spec_join(parts.push(x), sep) =~= spec_join(parts, sep) + sep + x,
    decreases parts.len(),
{
    if parts.len() == 1 {
        let p2 = parts.push(x);
        assert(p2.drop_first() =~~= seq![x]);
        assert(spec_join(seq![x], sep) == x);
        assert(spec_join(p2, sep) == p2[0] + sep + spec_join(p2.drop_first(), sep));
        assert(p2[0] == parts[0]);
    } else {
        lemma_join_push(parts.drop_first(), sep, x);
        assert(parts.push(x).drop_first() =~~= parts.drop_first().push(x));
    }
}

/// Joins segments with a separator.
pub fn join_strings(parts: &Vec<String>, sep: &str) -> (r: String)
    ensures
        r@ =~= spec_join(parts.deep_view(), sep@),
{
    let mut acc: String = String::new();
    let mut i: usize = 0;
    while i < parts.len()
        invariant
            0 <= i <= parts.len(),
            acc@ =~= spec_join(parts.deep_view().take(i as int), sep@),
        decreases parts.len() - i,
    {
        if i > 0 {
            acc.append(sep);
        }
        acc.append(parts[i].as_str());
        proof {
            let pv = parts.deep_view();
            assert(pv.take(i + 1) =~~= pv.take(i as int).push(pv[i as int]));
            if i > 0 {
                lemma_join_push(pv.take(i as int), sep@, pv[i as int]);
            } else {
                assert(spec_join(pv.take(1), sep@) == pv[0]);
            }
        }
        i = i + 1;
    }
    proof {
        assert(parts.deep_view().take(parts.deep_view().len() as int) =~~= parts.deep_view());
    }
    acc
}

} // verus!
