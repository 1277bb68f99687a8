//! Matching of names against patterns in which `*` stands for any run of
//! characters.
use vstd::prelude::*;
use crate::text::characters;

verus! {

/// Whether `needle` stands in `hay` at position `p`.
pub open spec fn occurs_at(hay: Seq<char>, needle: Seq<char>, p: int) -> bool {
    0 <= p && p + needle.len() <= hay.len() && hay.subrange(p, p + needle.len()) == needle
}

/// The first position from `p` on at which `needle` stands in `hay`.
pub open spec fn first_from(hay: Seq<char>, needle: Seq<char>, p: int) -> Option<int>
    decreases hay.len() - p + 1,
{
    if p < 0 || p + needle.len() > hay.len() {
        None
    } else if occurs_at(hay, needle, p) {
        Some(p)
    } else {
        first_from(hay, needle, p + 1)
    }
}

/// The pieces of a pattern between its stars, in order. A pattern without
/// a star is one piece.
pub open spec fn pieces(pattern: Seq<char>) -> Seq<Seq<char>>
    decreases pattern.len(),
{
    if pattern.len() == 0 {
        seq![Seq::empty()]
    } else if pattern.last() == '*' {
        pieces(pattern.drop_last()).push(Seq::empty())
    } else {
        let before = pieces(pattern.drop_last());
        before.update(before.len() - 1, before.last().push(pattern.last()))
    }
}

/// Whether the pieces from `i` on are found in `name` from `from` on, one
/// behind the other. Empty pieces are passed over; the first piece of the
/// pattern must stand at the very start of the name.
pub open spec fn pieces_match(name: Seq<char>, from: int, parts: Seq<Seq<char>>, i: int) -> bool
    decreases parts.len() - i,
{
    if i < 0 || i >= parts.len() {
        true
    } else if parts[i].len() == 0 {
        pieces_match(name, from, parts, i + 1)
    } else if i == 0 && !occurs_at(name, parts[0], from) {
        false
    } else {
        match first_from(name, parts[i], from) {
            Some(p) => pieces_match(name, p + parts[i].len(), parts, i + 1),
            None => false,
        }
    }
}

/// Whether `name` matches `pattern`: the pattern `*` matches every name; a
/// pattern with stars matches where its pieces are found in the name in
/// order, the first of them at the start; a pattern without a star matches
/// where it stands anywhere in the name.
pub open spec fn wildcard_matches(name: Seq<char>, pattern: Seq<char>) -> bool {
    if pattern == seq!['*'] {
        true
    } else if pattern.contains('*') {
        pieces_match(name, 0, pieces(pattern), 0)
    } else {
        first_from(name, pattern, 0) is Some
    }
}

/// Whether `needle` stands in `hay` at position `p`.
fn stands_at(hay: &Vec<char>, needle: &Vec<char>, p: usize) -> (r: bool)
    ensures
        r == occurs_at(hay@, needle@, p as int),
{
    if needle.len() > hay.len() || p > hay.len() - needle.len() {
        return false;
    }
    let mut k: usize = 0;
    while k < needle.len()
        invariant
            k <= needle.len(),
            p + needle.len() <= hay.len(),
            forall|j: int| 0 <= j < k ==> hay@[p + j] == needle@[j],
        decreases needle.len() - k,
    {
        if hay[p + k] != needle[k] {
            assert(hay@.subrange(p as int, p + needle.len())[k as int] != needle@[k as int]);
            return false;
        }
        k += 1;
    }
    assert(hay@.subrange(p as int, p + needle.len()) =~= needle@);
    true
}

/// The first position from `from` on at which `needle` stands in `hay`.
fn find_from(hay: &Vec<char>, needle: &Vec<char>, from: usize) -> (r: Option<usize>)
    ensures
        match first_from(hay@, needle@, from as int) {
            Some(p) => r matches Some(q) && q == p && q + needle.len() <= hay.len(),
            None => r is None,
        },
{
    if needle.len() > hay.len() {
        return None;
    }
    let last = hay.len() - needle.len();
    let mut p: usize = from;
    while p <= last
        invariant
            from <= p,
            last == hay.len() - needle.len(),
            needle.len() <= hay.len(),
            first_from(hay@, needle@, from as int) == first_from(hay@, needle@, p as int),
        decreases last + 1 - p,
    {
        if stands_at(hay, needle, p) {
            return Some(p);
        }
        if p == last {
            assert(first_from(hay@, needle@, p + 1) is None);
            return None;
        }
        p += 1;
    }
    None
}

/// Whether a list of characters holds a star.
fn has_star(pattern: &Vec<char>) -> (r: bool)
    ensures
        r == pattern@.contains('*'),
{
    let mut i: usize = 0;
    while i < pattern.len()
        invariant
            i <= pattern.len(),
            forall|j: int| 0 <= j < i ==> pattern@[j] != '*',
        decreases pattern.len() - i,
    {
        if pattern[i] == '*' {
            return true;
        }
        i += 1;
    }
    false
}

/// The contents of a list of pieces, one by one.
pub open spec fn pieces_view(parts: Seq<Vec<char>>) -> Seq<Seq<char>> {
    Seq::new(parts.len(), |i: int| parts[i]@)
}

/// The pieces of a pattern between its stars.
fn split_pieces(pattern: &Vec<char>) -> (parts: Vec<Vec<char>>)
    ensures
        pieces_view(parts@) == pieces(pattern@),
{
    let mut parts: Vec<Vec<char>> = Vec::new();
    let mut current: Vec<char> = Vec::new();
    let mut i: usize = 0;
    proof {
        assert(pattern@.take(0) =~= Seq::<char>::empty());
        assert(pieces_view(parts@).push(current@) =~= pieces(pattern@.take(0)));
    }
    while i < pattern.len()
        invariant
            i <= pattern.len(),
            pieces_view(parts@).push(current@) == pieces(pattern@.take(i as int)),
        decreases pattern.len() - i,
    {
        let ghost done = pieces_view(parts@);
        let ghost prefix = pattern@.take(i + 1);
        proof {
            assert(prefix.drop_last() =~= pattern@.take(i as int));
            assert(prefix.last() == pattern@[i as int]);
        }
        if pattern[i] == '*' {
            let ghost piece = current@;
            parts.push(current);
            current = Vec::new();
            proof {
                assert(pieces_view(parts@) =~= done.push(piece));
                assert(current@ =~= Seq::<char>::empty());
            }
        } else {
            let ghost piece = current@;
            current.push(pattern[i]);
            proof {
                let before = done.push(piece);
                assert(before.update(before.len() - 1, before.last().push(pattern@[i as int]))
                    =~= done.push(current@));
            }
        }
        i += 1;
    }
    proof {
        assert(pattern@.take(i as int) =~= pattern@);
    }
    let ghost done = pieces_view(parts@);
    let ghost piece = current@;
    parts.push(current);
    assert(pieces_view(parts@) =~= done.push(piece));
    parts
}

/// Whether `name` matches `pattern`, as `wildcard_matches` describes it.
pub fn wildcard_match(name: &str, pattern: &str) -> (r: bool)
    ensures
        r == wildcard_matches(name@, pattern@),
{
    let hay = characters(name);
    let chars = characters(pattern);
    if chars.len() == 1 && chars[0] == '*' {
        assert(pattern@ =~= seq!['*']);
        return true;
    }
    assert(pattern@ != seq!['*']) by {
        if pattern@ == seq!['*'] {
            assert(seq!['*'].len() == 1);
            assert(seq!['*'][0] == '*');
        }
    }
    if !has_star(&chars) {
        return find_from(&hay, &chars, 0).is_some();
    }
    let parts = split_pieces(&chars);
    let ghost all = pieces(pattern@);
    let mut from: usize = 0;
    let mut i: usize = 0;
    while i < parts.len()
        invariant
            i <= parts.len(),
            from <= hay.len(),
            hay@ == name@,
            all == pieces_view(parts@),
            wildcard_matches(name@, pattern@) == pieces_match(name@, from as int, all, i as int),
        decreases parts.len() - i,
    {
        let part = &parts[i];
        assert(all[i as int] == part@);
        if part.len() > 0 {
            if i == 0 && !stands_at(&hay, part, from) {
                assert(!pieces_match(name@, from as int, all, i as int));
                return false;
            }
            match find_from(&hay, part, from) {
                Some(p) => {
                    from = p + part.len();
                },
                None => {
                    assert(!pieces_match(name@, from as int, all, i as int));
                    return false;
                },
            }
        }
        i += 1;
    }
    true
}

} // verus!
