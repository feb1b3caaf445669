//! Character-level text utilities: conversion between strings and character
//! vectors, splitting, joining and whitespace handling.

use vstd::prelude::*;

verus! {

/// The view of an optional text.
pub open spec fn text_of(t: Option<String>) -> Option<Seq<char>> {
    match t {
        Some(s) => Some(s@),
        None => None,
    }
}

/// The characters of a string, in order.
pub fn to_chars(s: &str) -> (v: Vec<char>)
    ensures
        v@ == s@,
{
    let mut v: Vec<char> = Vec::new();
    for c in it: s.chars()
        invariant
            it.seq() == s@,
            v@ == it.seq().take(it.index()),
    {
        v.push(c);
    }
    v
}

/// Calls `String::push`, which appends one character to the string.
#[verifier::external_body]
fn push_char(s: &mut String, c: char)
    ensures
        final(s)@ == old(s)@.push(c),
{
    s.push(c)
}

/// The string made of the given characters.
pub fn from_chars(v: &Vec<char>) -> (s: String)
    ensures
        s@ == v@,
{
    let mut s = String::new();
    let mut i: usize = 0;
    while i < v.len()
        invariant
            i <= v.len(),
            s@ == v@.take(i as int),
        decreases v.len() - i,
    {
        push_char(&mut s, v[i]);
        i = i + 1;
    }
    s
}


/// Whether a character has the Unicode `White_Space` property.
pub open spec fn is_space(c: char) -> bool {
    let n = c as u32;
    ||| 0x09 <= n <= 0x0D
    ||| n == 0x20
    ||| n == 0x85
    ||| n == 0xA0
    ||| n == 0x1680
    ||| 0x2000 <= n <= 0x200A
    ||| n == 0x2028
    ||| n == 0x2029
    ||| n == 0x202F
    ||| n == 0x205F
    ||| n == 0x3000
}

/// Tests a character for the Unicode `White_Space` property.
pub fn is_whitespace(c: char) -> (b: bool)
    ensures
        b == is_space(c),
{
    let n: u32 = c as u32;
    (0x09 <= n && n <= 0x0D) || n == 0x20 || n == 0x85 || n == 0xA0 || n == 0x1680 || (0x2000 <= n
        && n <= 0x200A) || n == 0x2028 || n == 0x2029 || n == 0x202F || n == 0x205F || n == 0x3000
}

/// What separates the pieces of a text.
#[derive(Clone, Copy, Debug)]
pub enum Separator {
    /// One given character.
    Char(char),
    /// Any whitespace character.
    Whitespace,
}

impl Separator {
    /// Whether `c` is a separating character.
    pub open spec fn holds(self, c: char) -> bool {
        match self {
            Separator::Char(d) => c == d,
            Separator::Whitespace => is_space(c),
        }
    }

    /// Tests whether `c` is a separating character.
    pub fn test(self, c: char) -> (b: bool)
        ensures
            b == self.holds(c),
    {
        match self {
            Separator::Char(d) => c == d,
            Separator::Whitespace => is_whitespace(c),
        }
    }
}

/// The pieces of `s` between separating characters. There is always one piece
/// more than there are separating characters in `s`; pieces may be empty.
pub open spec fn split_spec(s: Seq<char>, sep: Separator) -> Seq<Seq<char>>
    decreases s.len(),
{
    if s.len() == 0 {
        seq![Seq::<char>::empty()]
    } else {
        let before = split_spec(s.drop_last(), sep);
        if sep.holds(s.last()) {
            before.push(Seq::<char>::empty())
        } else {
            before.drop_last().push(before.last().push(s.last()))
        }
    }
}

/// The views of the texts held in a vector.
pub open spec fn views(v: Seq<Vec<char>>) -> Seq<Seq<char>> {
    Seq::new(v.len(), |i: int| v[i]@)
}

/// Splits a text at every separating character.
pub fn split(s: &Vec<char>, sep: Separator) -> (pieces: Vec<Vec<char>>)
    ensures
        views(pieces@) == split_spec(s@, sep),
{
    let mut pieces: Vec<Vec<char>> = Vec::new();
    let mut cur: Vec<char> = Vec::new();
    let mut i: usize = 0;
    proof {
        assert(s@.take(0) =~= Seq::<char>::empty());
        assert(views(pieces@).push(cur@) =~= split_spec(s@.take(0), sep));
    }
    while i < s.len()
        invariant
            i <= s.len(),
            views(pieces@).push(cur@) == split_spec(s@.take(i as int), sep),
        decreases s.len() - i,
    {
        let c = s[i];
        proof {
            let t = s@.take(i + 1);
            assert(t.drop_last() =~= s@.take(i as int));
            assert(t.last() == c);
            let before = split_spec(t.drop_last(), sep);
            assert(before.drop_last() =~= views(pieces@));
            assert(before.last() == cur@);
        }
        if sep.test(c) {
            pieces.push(cur);
            cur = Vec::new();
            proof {
                assert(views(pieces@).push(cur@) =~= split_spec(s@.take(i + 1), sep));
            }
        } else {
            cur.push(c);
            proof {
                assert(views(pieces@).push(cur@) =~= split_spec(s@.take(i + 1), sep));
            }
        }
        i = i + 1;
    }
    proof {
        assert(s@.take(i as int) =~= s@);
    }
    let ghost done = views(pieces@).push(cur@);
    pieces.push(cur);
    proof {
        assert(views(pieces@) =~= done);
    }
    pieces
}


/// Where the run of characters that begins at `from` ends: the first
/// position at or after `from` whose character is separating if `inside` is
/// false, or not separating if `inside` is true, or else the end of the
/// text.
pub open spec fn run_end(s: Seq<char>, from: int, sep: Separator, inside: bool) -> int
    decreases s.len() - from,
{
    if 0 <= from < s.len() && sep.holds(s[from]) == inside {
        run_end(s, from + 1, sep, inside)
    } else {
        from
    }
}

/// Finds where the run of characters that begins at `from` ends.
pub fn skip_run(s: &Vec<char>, from: usize, sep: Separator, inside: bool) -> (end: usize)
    requires
        from <= s.len(),
    ensures
        end == run_end(s@, from as int, sep, inside),
        from <= end <= s.len(),
{
    let mut i: usize = from;
    while i < s.len() && sep.test(s[i]) == inside
        invariant
            from <= i <= s.len(),
            run_end(s@, from as int, sep, inside) == run_end(s@, i as int, sep, inside),
        decreases s.len() - i,
    {
        i = i + 1;
    }
    i
}

/// The pieces that are not empty, in order.
pub open spec fn nonempty_spec(pieces: Seq<Seq<char>>) -> Seq<Seq<char>>
    decreases pieces.len(),
{
    if pieces.len() == 0 {
        Seq::<Seq<char>>::empty()
    } else {
        let rest = nonempty_spec(pieces.drop_last());
        if pieces.last().len() > 0 {
            rest.push(pieces.last())
        } else {
            rest
        }
    }
}

/// Drops the empty pieces.
pub fn nonempty(pieces: Vec<Vec<char>>) -> (kept: Vec<Vec<char>>)
    ensures
        views(kept@) == nonempty_spec(views(pieces@)),
{
    let ghost all = views(pieces@);
    let mut kept: Vec<Vec<char>> = Vec::new();
    let mut i: usize = 0;
    proof {
        assert(all.take(0) =~= Seq::<Seq<char>>::empty());
        assert(views(kept@) =~= nonempty_spec(all.take(0)));
    }
    while i < pieces.len()
        invariant
            i <= pieces.len(),
            all == views(pieces@),
            views(kept@) == nonempty_spec(all.take(i as int)),
        decreases pieces.len() - i,
    {
        proof {
            let t = all.take(i + 1);
            assert(t.drop_last() =~= all.take(i as int));
            assert(t.last() == pieces@[i as int]@);
        }
        if pieces[i].len() > 0 {
            let ghost before = views(kept@);
            let piece = copy(&pieces[i]);
            kept.push(piece);
            proof {
                assert(views(kept@) =~= before.push(pieces@[i as int]@));
            }
        }
        i = i + 1;
    }
    proof {
        assert(all.take(i as int) =~= all);
    }
    kept
}

/// A fresh vector with the same characters.
pub fn copy(v: &Vec<char>) -> (w: Vec<char>)
    ensures
        w@ == v@,
{
    let mut w: Vec<char> = Vec::new();
    let mut i: usize = 0;
    while i < v.len()
        invariant
            i <= v.len(),
            w@ == v@.take(i as int),
        decreases v.len() - i,
    {
        w.push(v[i]);
        i = i + 1;
    }
    proof {
        assert(v@.take(i as int) =~= v@);
    }
    w
}

/// The pieces written one after another with `sep` between neighbours.
pub open spec fn join_spec(pieces: Seq<Seq<char>>, sep: char) -> Seq<char>
    decreases pieces.len(),
{
    if pieces.len() == 0 {
        Seq::<char>::empty()
    } else if pieces.len() == 1 {
        pieces[0]
    } else {
        join_spec(pieces.drop_last(), sep).push(sep) + pieces.last()
    }
}

/// Appends the characters of `tail` to `v`.
pub fn extend(v: &mut Vec<char>, tail: &Vec<char>)
    ensures
        final(v)@ == old(v)@ + tail@,
{
    let mut i: usize = 0;
    proof {
        assert(v@ =~= old(v)@ + tail@.take(0));
    }
    while i < tail.len()
        invariant
            i <= tail.len(),
            v@ == old(v)@ + tail@.take(i as int),
        decreases tail.len() - i,
    {
        v.push(tail[i]);
        proof {
            assert(tail@.take(i + 1) =~= tail@.take(i as int).push(tail@[i as int]));
            assert(v@ =~= old(v)@ + tail@.take(i + 1));
        }
        i = i + 1;
    }
    proof {
        assert(tail@.take(i as int) =~= tail@);
    }
}

/// Joins the pieces with `sep` between neighbours.
pub fn join(pieces: &Vec<Vec<char>>, sep: char) -> (joined: Vec<char>)
    ensures
        joined@ == join_spec(views(pieces@), sep),
{
    let ghost all = views(pieces@);
    let mut joined: Vec<char> = Vec::new();
    let mut i: usize = 0;
    proof {
        assert(all.take(0) =~= Seq::<Seq<char>>::empty());
    }
    while i < pieces.len()
        invariant
            i <= pieces.len(),
            all == views(pieces@),
            joined@ == join_spec(all.take(i as int), sep),
        decreases pieces.len() - i,
    {
        proof {
            let t = all.take(i + 1);
            assert(t.drop_last() =~= all.take(i as int));
            assert(t.last() == pieces@[i as int]@);
            if i == 0 {
                assert(t[0] == pieces@[0]@);
            }
        }
        if i > 0 {
            joined.push(sep);
        }
        extend(&mut joined, &pieces[i]);
        proof {
            if i == 0 {
                assert(joined@ =~= pieces@[0]@);
            }
        }
        i = i + 1;
    }
    proof {
        assert(all.take(i as int) =~= all);
    }
    joined
}

/// The non-empty pieces of `s` between separating characters, joined by single
/// spaces. With whitespace as separator this trims the text and collapses
/// every run of whitespace into one space.
pub open spec fn collapse_spec(s: Seq<char>, sep: Separator) -> Seq<char> {
    join_spec(nonempty_spec(split_spec(s, sep)), ' ')
}

/// Splits at `sep`, drops the empty pieces and joins the rest with spaces.
pub fn collapse(s: &Vec<char>, sep: Separator) -> (r: Vec<char>)
    ensures
        r@ == collapse_spec(s@, sep),
{
    let pieces = nonempty(split(s, sep));
    join(&pieces, ' ')
}


/// Whether `pat` stands in `s` at position `i`.
pub open spec fn occurs_at(s: Seq<char>, pat: Seq<char>, i: int) -> bool {
    0 <= i && i + pat.len() <= s.len() && s.subrange(i, i + pat.len()) == pat
}

/// Whether `i` is the first position at or after `from` where `pat` stands in `s`.
pub open spec fn first_at(s: Seq<char>, pat: Seq<char>, from: int, i: int) -> bool {
    from <= i && occurs_at(s, pat, i) && forall|j: int| from <= j < i ==> !occurs_at(s, pat, j)
}

/// Tests whether `pat` stands in `s` at position `i`.
pub fn matches_at(s: &Vec<char>, pat: &Vec<char>, i: usize) -> (b: bool)
    ensures
        b == occurs_at(s@, pat@, i as int),
{
    if pat.len() > s.len() || i > s.len() - pat.len() {
        return false;
    }
    let mut k: usize = 0;
    while k < pat.len()
        invariant
            k <= pat.len(),
            i + pat.len() <= s.len(),
            forall|j: int| 0 <= j < k ==> s@[i + j] == pat@[j],
        decreases pat.len() - k,
    {
        if s[i + k] != pat[k] {
            proof {
                assert(s@.subrange(i as int, i + pat.len())[k as int] == s@[i + k]);
            }
            return false;
        }
        k = k + 1;
    }
    proof {
        assert(s@.subrange(i as int, i + pat.len()) =~= pat@);
    }
    true
}

/// The first position at or after `from` where `pat` stands in `s`.
pub fn find(s: &Vec<char>, pat: &Vec<char>, from: usize) -> (r: Option<usize>)
    ensures
        match r {
            Some(i) => first_at(s@, pat@, from as int, i as int),
            None => forall|j: int| from <= j ==> !occurs_at(s@, pat@, j),
        },
{
    let mut i: usize = from;
    while i < s.len()
        invariant
            from <= i,
            forall|j: int| from <= j < i ==> !occurs_at(s@, pat@, j),
        decreases s.len() - i,
    {
        if matches_at(s, pat, i) {
            return Some(i);
        }
        i = i + 1;
    }
    if matches_at(s, pat, i) {
        return Some(i);
    }
    None
}

/// The two parts of `s` before and after `pat`, if `pat` stands in `s` and
/// does not stand in it a second time after its first occurrence.
pub open spec fn two_parts(s: Seq<char>, pat: Seq<char>) -> Option<(Seq<char>, Seq<char>)> {
    if exists|i: int| first_at(s, pat, 0, i) {
        let i = choose|i: int| first_at(s, pat, 0, i);
        if exists|j: int| i + pat.len() <= j && occurs_at(s, pat, j) {
            None
        } else {
            Some((s.take(i), s.skip(i + pat.len())))
        }
    } else {
        None
    }
}

/// The characters of `s` from position `from` up to position `to`.
pub fn slice(s: &Vec<char>, from: usize, to: usize) -> (r: Vec<char>)
    requires
        from <= to <= s.len(),
    ensures
        r@ == s@.subrange(from as int, to as int),
{
    let mut r: Vec<char> = Vec::new();
    let mut i: usize = from;
    while i < to
        invariant
            from <= i <= to,
            to <= s.len(),
            r@ == s@.subrange(from as int, i as int),
        decreases to - i,
    {
        r.push(s[i]);
        proof {
            assert(r@ =~= s@.subrange(from as int, i + 1));
        }
        i = i + 1;
    }
    r
}

/// Cuts `s` at the only occurrence of the non-empty marker `pat`.
pub fn split_in_two(s: &Vec<char>, pat: &Vec<char>) -> (r: Option<(Vec<char>, Vec<char>)>)
    requires
        pat.len() > 0,
    ensures
        match r {
            Some((a, b)) => two_parts(s@, pat@) == Some((a@, b@)),
            None => two_parts(s@, pat@).is_none(),
        },
{
    match find(s, pat, 0) {
        None => None,
        Some(i) => {
            proof {
                let w = choose|w: int| first_at(s@, pat@, 0, w);
                assert(first_at(s@, pat@, 0, i as int));
                assert(w == i);
                assert(i + pat@.len() <= s@.len());
                assert(s@.len() == s.len());
            }
            let after: usize = i + pat.len();
            match find(s, pat, after) {
                Some(j) => None,
                None => {
                    let a = slice(s, 0, i);
                    let b = slice(s, after, s.len());
                    proof {
                        assert(a@ =~= s@.take(i as int));
                        assert(b@ =~= s@.skip(after as int));
                    }
                    Some((a, b))
                },
            }
        },
    }
}

} // verus!
