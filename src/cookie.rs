//! Reading one cookie out of a `Cookie` header.
use vstd::prelude::*;

use crate::text::chars_of;

verus! {

/// The first position at or after `from`, and before `to`, that holds `c`;
/// `to` when there is none.
pub open spec fn find_from(s: Seq<char>, c: char, from: int, to: int) -> int
    decreases to - from,
{
    if from >= to || s[from] == c {
        from
    } else {
        find_from(s, c, from + 1, to)
    }
}

/// The first position at or after `from`, and before `to`, that is not a
/// space; `to` when there is none.
pub open spec fn skip_spaces(s: Seq<char>, from: int, to: int) -> int
    decreases to - from,
{
    if from >= to || s[from] != ' ' {
        from
    } else {
        skip_spaces(s, from + 1, to)
    }
}

/// The cookie `name` in the `;`-separated pairs of `s` from `pos` on: the
/// value of the first pair whose text before its first `=`, after the
/// spaces that follow the separator, is exactly `name`. A piece without `=`
/// is skipped.
pub open spec fn cookie_from(s: Seq<char>, name: Seq<char>, pos: int) -> Option<Seq<char>>
    decreases s.len() - pos,
{
    if pos < 0 || pos > s.len() {
        None
    } else {
        let end = find_from(s, ';', pos, s.len() as int);
        let start = skip_spaces(s, pos, end);
        let eq = find_from(s, '=', start, end);
        if eq < end && s.subrange(start, eq) == name {
            Some(s.subrange(eq + 1, end))
        } else if pos <= end && end < s.len() {
            cookie_from(s, name, end + 1)
        } else {
            None
        }
    }
}

/// The value of cookie `name` in a `Cookie` header.
pub open spec fn cookie_value(header: Seq<char>, name: Seq<char>) -> Option<Seq<char>> {
    cookie_from(header, name, 0)
}

proof fn lemma_find_from_bounds(s: Seq<char>, c: char, from: int, to: int)
    requires
        from <= to,
    ensures
        from <= find_from(s, c, from, to) <= to,
        find_from(s, c, from, to) < to ==> s[find_from(s, c, from, to)] == c,
    decreases to - from,
{
    if from < to && s[from] != c {
        lemma_find_from_bounds(s, c, from + 1, to);
    }
}

proof fn lemma_skip_spaces_bounds(s: Seq<char>, from: int, to: int)
    requires
        from <= to,
    ensures
        from <= skip_spaces(s, from, to) <= to,
    decreases to - from,
{
    if from < to && s[from] == ' ' {
        lemma_skip_spaces_bounds(s, from + 1, to);
    }
}

/// The first position from `from` on, before `to`, that is not a space, or
/// `to`.
fn skip_space_chars(v: &Vec<char>, from: usize, to: usize) -> (r: usize)
    requires
        from <= to <= v.len(),
    ensures
        r == skip_spaces(v@, from as int, to as int),
{
    let mut k: usize = from;
    while k < to && v[k] == ' '
        invariant
            from <= k <= to <= v.len(),
            skip_spaces(v@, from as int, to as int) == skip_spaces(v@, k as int, to as int),
        decreases to - k,
    {
        k = k + 1;
    }
    k
}

/// The first position from `from` on, before `to`, that holds `c`, or `to`.
fn find_char(v: &Vec<char>, c: char, from: usize, to: usize) -> (r: usize)
    requires
        from <= to <= v.len(),
    ensures
        r == find_from(v@, c, from as int, to as int),
{
    let mut k: usize = from;
    while k < to && v[k] != c
        invariant
            from <= k <= to <= v.len(),
            find_from(v@, c, from as int, to as int) == find_from(v@, c, k as int, to as int),
        decreases to - k,
    {
        k = k + 1;
    }
    k
}

/// Whether `v[from..to]` equals `w`.
fn range_equals(v: &Vec<char>, from: usize, to: usize, w: &Vec<char>) -> (r: bool)
    requires
        from <= to <= v.len(),
    ensures
        r == (v@.subrange(from as int, to as int) == w@),
{
    if to - from != w.len() {
        return false;
    }
    let mut k: usize = 0;
    while k < w.len()
        invariant
            from <= to <= v.len(),
            to - from == w.len(),
            k <= w.len(),
            forall|i: int| 0 <= i < k ==> v@[from + i] == w@[i],
        decreases w.len() - k,
    {
        if v[from + k] != w[k] {
            assert(v@.subrange(from as int, to as int)[k as int] != w@[k as int]);
            return false;
        }
        k = k + 1;
    }
    assert(v@.subrange(from as int, to as int) =~= w@);
    true
}

/// The value of cookie `cookie_name` in a `Cookie` header, if it is set.
pub fn get_cookie<'a>(header: &'a str, cookie_name: &str) -> (r: Option<&'a str>)
    ensures
        r is None <==> cookie_value(header@, cookie_name@) is None,
        r matches Some(v) ==> cookie_value(header@, cookie_name@) == Some(v@),
{
    let v = chars_of(header);
    let name = chars_of(cookie_name);
    let mut pos: usize = 0;
    while pos <= v.len()
        invariant
            v@ == header@,
            name@ == cookie_name@,
            cookie_value(header@, cookie_name@) == cookie_from(v@, name@, pos as int),
        decreases v.len() + 1 - pos,
    {
        let end = find_char(&v, ';', pos, v.len());
        proof {
            lemma_find_from_bounds(v@, ';', pos as int, v.len() as int);
        }
        let start = skip_space_chars(&v, pos, end);
        proof {
            lemma_skip_spaces_bounds(v@, pos as int, end as int);
        }
        let eq = find_char(&v, '=', start, end);
        proof {
            lemma_find_from_bounds(v@, '=', start as int, end as int);
        }
        if eq < end && range_equals(&v, start, eq, &name) {
            return Some(header.substring_char(eq + 1, end));
        }
        if end == v.len() {
            return None;
        }
        pos = end + 1;
    }
    None
}

} // verus!
