//! A declarative command-line argument parsing and dispatch engine.
use vstd::prelude::*;

pub mod app;
pub mod command;
pub mod command_laws;
pub mod display;
pub mod error;
pub mod option_parser;
pub mod text;
pub mod wildcard;

pub use app::Fli;
pub use error::FliError;

verus! {

/// Adds two sizes.
pub fn add(left: usize, right: usize) -> (sum: usize)
    requires
        left + right <= usize::MAX,
    ensures
        sum == left + right,
{
    left + right
}

/// The smallest of three numbers.
pub open spec fn min3(a: int, b: int, c: int) -> int {
    if a <= b && a <= c {
        a
    } else if b <= c {
        b
    } else {
        c
    }
}

/// The Levenshtein distance of two sequences of characters, by its
/// recurrence: the distance from an empty sequence is the length of the
/// other one; otherwise it is the least of the distance after dropping the
/// last character of the first plus one (a deletion), after dropping the
/// last character of the second plus one (an insertion), and after dropping
/// both, plus one where the two characters differ (a replacement).
pub open spec fn edit_distance(a: Seq<char>, b: Seq<char>) -> int
    decreases a.len() + b.len(),
{
    if a.len() == 0 {
        b.len() as int
    } else if b.len() == 0 {
        a.len() as int
    } else {
        min3(
            edit_distance(a.drop_last(), b) + 1,
            edit_distance(a, b.drop_last()) + 1,
            edit_distance(a.drop_last(), b.drop_last()) + if a.last() == b.last() {
                0int
            } else {
                1int
            },
        )
    }
}

/// The distance of two sequences is not negative and at most the larger of
/// their lengths.
pub proof fn lemma_edit_distance_bounds(a: Seq<char>, b: Seq<char>)
    ensures
        0 <= edit_distance(a, b),
        edit_distance(a, b) <= if a.len() >= b.len() {
            a.len()
        } else {
            b.len()
        },
    decreases a.len() + b.len(),
{
    if a.len() > 0 && b.len() > 0 {
        lemma_edit_distance_bounds(a.drop_last(), b);
        lemma_edit_distance_bounds(a, b.drop_last());
        lemma_edit_distance_bounds(a.drop_last(), b.drop_last());
    }
}

/// The Levenshtein distance of two strings, counted in characters.
pub fn levenshtein_distance(s1: &str, s2: &str) -> (d: usize)
    ensures
        d == edit_distance(s1@, s2@),
{
    let a = text::characters(s1);
    let b = text::characters(s2);
    let len1 = a.len();
    let len2 = b.len();
    if len1 == 0 {
        return len2;
    }
    if len2 == 0 {
        return len1;
    }
    // `prev[j]` is the distance of the first `i` characters of `s1` and the
    // first `j` characters of `s2`.
    let mut prev: Vec<usize> = Vec::new();
    prev.push(0);
    let mut j: usize = 0;
    while j < len2
        invariant
            j <= len2,
            prev.len() == j + 1,
            forall|k: int| 0 <= k <= j ==> prev@[k] == k,
        decreases len2 - j,
    {
        prev.push(j + 1);
        j += 1;
    }
    proof {
        assert(a@.take(0) =~= Seq::<char>::empty());
        assert forall|k: int| 0 <= k <= len2 implies prev@[k] == edit_distance(
            a@.take(0),
            #[trigger] b@.take(k),
        ) by {
            if k == 0 {
                assert(b@.take(0) =~= Seq::<char>::empty());
            }
        }
    }
    let mut i: usize = 0;
    while i < len1
        invariant
            i <= len1,
            len1 == a@.len(),
            len2 == b@.len(),
            len2 > 0,
            prev.len() == len2 + 1,
            forall|k: int|
                0 <= k <= len2 ==> prev@[k] == edit_distance(a@.take(i as int), #[trigger] b@.take(k)),
        decreases len1 - i,
    {
        let ghost row = a@.take(i + 1);
        let ghost above = a@.take(i as int);
        proof {
            assert(row.drop_last() =~= above);
            assert(row.last() == a@[i as int]);
            assert(b@.take(0) =~= Seq::<char>::empty());
        }
        let mut cur: Vec<usize> = Vec::new();
        cur.push(i + 1);
        let mut j: usize = 0;
        while j < len2
            invariant
                j <= len2,
                i < len1,
                len1 == a@.len(),
                len2 == b@.len(),
                prev.len() == len2 + 1,
                cur.len() == j + 1,
                row == a@.take(i + 1),
                above == a@.take(i as int),
                row.drop_last() == above,
                row.last() == a@[i as int],
                forall|k: int|
                    0 <= k <= len2 ==> prev@[k] == edit_distance(above, #[trigger] b@.take(k)),
                forall|k: int| 0 <= k <= j ==> cur@[k] == edit_distance(row, #[trigger] b@.take(k)),
            decreases len2 - j,
        {
            let ghost col = b@.take(j + 1);
            let ghost left = b@.take(j as int);
            proof {
                assert(col.drop_last() =~= left);
                assert(col.last() == b@[j as int]);
                lemma_edit_distance_bounds(above, left);
                lemma_edit_distance_bounds(above, col);
                lemma_edit_distance_bounds(row, left);
                lemma_edit_distance_bounds(row, col);
                assert(prev@[j as int] == edit_distance(above, b@.take(j as int)));
                assert(prev@[j + 1] == edit_distance(above, b@.take(j + 1)));
                assert(cur@[j as int] == edit_distance(row, b@.take(j as int)));
            }
            let cost: usize = if a[i] == b[j] {
                0
            } else {
                1
            };
            let diagonal = prev[j] + cost;
            let side = if prev[j + 1] <= cur[j] {
                prev[j + 1]
            } else {
                cur[j]
            };
            let best = if side < diagonal {
                side + 1
            } else {
                diagonal
            };
            assert(best == edit_distance(row, col));
            cur.push(best);
            j += 1;
        }
        prev = cur;
        i += 1;
    }
    proof {
        assert(a@.take(len1 as int) =~= a@);
        assert(b@.take(len2 as int) =~= b@);
    }
    prev[len2]
}

/// The candidates whose distance from `target` is at most `max_distance`,
/// in their order.
pub open spec fn similar(target: Seq<char>, candidates: Seq<Seq<char>>, max_distance: int) -> Seq<
    Seq<char>,
>
    decreases candidates.len(),
{
    if candidates.len() == 0 {
        Seq::empty()
    } else {
        let rest = similar(target, candidates.drop_last(), max_distance);
        if edit_distance(target, candidates.last()) <= max_distance {
            rest.push(candidates.last())
        } else {
            rest
        }
    }
}

/// The contents of a list of borrowed strings, one by one.
pub open spec fn borrowed_texts(items: Seq<&String>) -> Seq<Seq<char>> {
    Seq::new(items.len(), |i: int| items[i]@)
}

/// The candidates that lie within `max_distance` of `target`, in the order
/// in which they were given.
pub fn find_similar<'a>(target: &str, candidates: &'a [String], max_distance: usize) -> (out: Vec<
    &'a String,
>)
    ensures
        borrowed_texts(out@) == similar(target@, text::texts(candidates@), max_distance as int),
{
    let mut out: Vec<&'a String> = Vec::new();
    let ghost all = text::texts(candidates@);
    let mut i: usize = 0;
    proof {
        assert(all.take(0) =~= Seq::<Seq<char>>::empty());
        assert(borrowed_texts(out@) =~= Seq::<Seq<char>>::empty());
    }
    while i < candidates.len()
        invariant
            i <= candidates.len(),
            all == text::texts(candidates@),
            borrowed_texts(out@) == similar(target@, all.take(i as int), max_distance as int),
        decreases candidates.len() - i,
    {
        let ghost before = borrowed_texts(out@);
        proof {
            assert(all.take(i + 1).drop_last() =~= all.take(i as int));
            assert(all.take(i + 1).last() == candidates@[i as int]@);
        }
        if levenshtein_distance(target, candidates[i].as_str()) <= max_distance {
            out.push(&candidates[i]);
            assert(borrowed_texts(out@) =~= before.push(candidates@[i as int]@));
        }
        i += 1;
    }
    proof {
        assert(all.take(i as int) =~= all);
    }
    out
}

} // verus!
