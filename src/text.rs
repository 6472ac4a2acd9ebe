//! Small verified helpers on character sequences.
use vstd::prelude::*;

verus! {

/// The characters of `s`, in order.
pub fn chars_of(s: &str) -> (v: Vec<char>)
    ensures
        v@ == s@,
{
    let mut v: Vec<char> = Vec::new();
    for c in it: s.chars()
        invariant
            it.seq() == s@,
            v@ == it.seq().take(it.index() as int),
    {
        v.push(c);
    }
    assert(v@ =~= s@);
    v
}

/// How many times `c` occurs in `s`.
pub open spec fn count_char(s: Seq<char>, c: char) -> nat
    decreases s.len(),
{
    if s.len() == 0 {
        0
    } else {
        count_char(s.drop_last(), c) + if s.last() == c {
            1nat
        } else {
            0nat
        }
    }
}

pub proof fn lemma_count_concat(a: Seq<char>, b: Seq<char>, c: char)
    ensures
        count_char(a + b, c) == count_char(a, c) + count_char(b, c),
    decreases b.len(),
{
    if b.len() == 0 {
        assert(a + b =~= a);
    } else {
        assert((a + b).drop_last() =~= a + b.drop_last());
        lemma_count_concat(a, b.drop_last(), c);
    }
}

pub proof fn lemma_count_absent(s: Seq<char>, c: char)
    requires
        !s.contains(c),
    ensures
        count_char(s, c) == 0,
    decreases s.len(),
{
    if s.len() > 0 {
        assert(!s.drop_last().contains(c)) by {
            if s.drop_last().contains(c) {
                let i = choose|i: int| 0 <= i < s.drop_last().len() && s.drop_last()[i] == c;
                assert(s[i] == c);
            }
        }
        assert(s[s.len() - 1] != c);
        lemma_count_absent(s.drop_last(), c);
    }
}

pub proof fn lemma_concat_absent(a: Seq<char>, b: Seq<char>, c: char)
    requires
        !a.contains(c),
        !b.contains(c),
    ensures
        !(a + b).contains(c),
{
    if (a + b).contains(c) {
        let i = choose|i: int| 0 <= i < (a + b).len() && (a + b)[i] == c;
        if i < a.len() {
            assert(a[i] == c);
        } else {
            assert(b[i - a.len()] == c);
        }
    }
}

/// How many times `pat` occurs in `s`, overlapping occurrences included.
pub open spec fn count_occurrences(s: Seq<char>, pat: Seq<char>) -> nat
    decreases s.len(),
{
    if s.len() < pat.len() || s.len() == 0 {
        0
    } else {
        (if s.subrange(0, pat.len() as int) == pat {
            1nat
        } else {
            0nat
        }) + count_occurrences(s.drop_first(), pat)
    }
}

proof fn lemma_count_first(s: Seq<char>, c: char)
    requires
        s.len() > 0,
    ensures
        count_char(s, c) == (if s[0] == c {
            1nat
        } else {
            0nat
        }) + count_char(s.drop_first(), c),
{
    assert(s =~= seq![s[0]] + s.drop_first());
    lemma_count_concat(seq![s[0]], s.drop_first(), c);
    let one = seq![s[0]];
    assert(one.drop_last() =~= Seq::<char>::empty());
    assert(count_char(one.drop_last(), c) == 0);
    assert(one.last() == s[0]);
    assert(count_char(one, c) == count_char(one.drop_last(), c) + if one.last() == c {
        1nat
    } else {
        0nat
    });
}

/// Each occurrence of a pattern that starts with `c` uses up a `c`.
pub proof fn lemma_occurrences_at_most_count(s: Seq<char>, pat: Seq<char>, c: char)
    requires
        pat.len() > 0,
        pat[0] == c,
    ensures
        count_occurrences(s, pat) <= count_char(s, c),
    decreases s.len(),
{
    if s.len() >= pat.len() && s.len() > 0 {
        lemma_occurrences_at_most_count(s.drop_first(), pat, c);
        lemma_count_first(s, c);
        if s.subrange(0, pat.len() as int) == pat {
            assert(s[0] == s.subrange(0, pat.len() as int)[0]);
        }
    }
}

proof fn lemma_occurrences_at_most_count_from(s: Seq<char>, pat: Seq<char>, k: int)
    requires
        0 <= k < pat.len(),
        s.len() >= k,
    ensures
        count_occurrences(s, pat) <= count_char(s.skip(k), pat[k]),
    decreases s.len(),
{
    if s.len() >= pat.len() && s.len() > 0 {
        let s1 = s.drop_first();
        lemma_occurrences_at_most_count_from(s1, pat, k);
        assert(s1.skip(k) =~= s.skip(k).drop_first());
        lemma_count_first(s.skip(k), pat[k]);
        if s.subrange(0, pat.len() as int) == pat {
            assert(s.skip(k)[0] == s.subrange(0, pat.len() as int)[k]);
        }
    }
}

/// Each occurrence of a pattern uses up an occurrence of any one of its
/// characters.
pub proof fn lemma_occurrences_at_most_char_count(s: Seq<char>, pat: Seq<char>, k: int)
    requires
        0 <= k < pat.len(),
    ensures
        count_occurrences(s, pat) <= count_char(s, pat[k]),
{
    if s.len() >= k {
        lemma_occurrences_at_most_count_from(s, pat, k);
        assert(s =~= s.take(k) + s.skip(k));
        lemma_count_concat(s.take(k), s.skip(k), pat[k]);
    }
}

/// An occurrence at the start of `b` is still one in `a + b`.
pub proof fn lemma_occurrence_kept(a: Seq<char>, b: Seq<char>, pat: Seq<char>)
    requires
        pat.len() > 0,
        b.len() >= pat.len(),
        b.subrange(0, pat.len() as int) == pat,
    ensures
        count_occurrences(a + b, pat) >= 1,
    decreases a.len(),
{
    if a.len() == 0 {
        assert(a + b =~= b);
    } else {
        assert((a + b).drop_first() =~= a.drop_first() + b);
        lemma_occurrence_kept(a.drop_first(), b, pat);
    }
}

/// Whether `needle` occurs in `hay` as a contiguous run.
pub open spec fn seq_contains(hay: Seq<char>, needle: Seq<char>) -> bool {
    exists|i: int| 0 <= i <= hay.len() - needle.len() && #[trigger] hay.subrange(i, i + needle.len()) == needle
}

fn matches_at(hay: &Vec<char>, needle: &Vec<char>, at: usize) -> (r: bool)
    requires
        at + needle.len() <= hay.len(),
    ensures
        r == (hay@.subrange(at as int, at + needle.len()) == needle@),
{
    let mut j: usize = 0;
    while j < needle.len()
        invariant
            at + needle.len() <= hay.len(),
            j <= needle.len(),
            forall|k: int| 0 <= k < j ==> hay@[at + k] == needle@[k],
        decreases needle.len() - j,
    {
        if hay[at + j] != needle[j] {
            assert(hay@.subrange(at as int, at + needle.len())[j as int] != needle@[j as int]);
            return false;
        }
        j = j + 1;
    }
    assert(hay@.subrange(at as int, at + needle.len()) =~= needle@);
    true
}

/// Whether `needle` occurs in `hay`.
pub fn contains_chars(hay: &Vec<char>, needle: &Vec<char>) -> (r: bool)
    ensures
        r == seq_contains(hay@, needle@),
{
    if needle.len() > hay.len() {
        return false;
    }
    if needle.len() == 0 {
        assert(hay@.subrange(0, 0 + needle@.len() as int) =~= needle@);
        return true;
    }
    let last: usize = hay.len() - needle.len();
    let mut i: usize = 0;
    while i <= last
        invariant
            needle.len() > 0,
            last == hay.len() - needle.len(),
            i <= last + 1,
            forall|k: int| 0 <= k < i ==> #[trigger] hay@.subrange(k, k + needle.len()) != needle@,
        decreases last + 1 - i,
    {
        if matches_at(hay, needle, i) {
            return true;
        }
        i = i + 1;
    }
    false
}

} // verus!
