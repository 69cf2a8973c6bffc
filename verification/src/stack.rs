//! Stacking order as plain sequences: the front of a stack is its first
//! place. These are the moves that a stack can make, and what each of them
//! keeps.

use vstd::prelude::*;
use crate::handle::WlcView;

verus! {

/// The stack `s` after the surface at place `from` was taken out and put
/// back at place `to`.
pub open spec fn moved(s: Seq<WlcView>, from: int, to: int) -> Seq<WlcView> {
    s.remove(from).insert(to, s[from])
}

/// The place to move a surface to so that it comes to stand directly in
/// front of another: `from` is where the surface stands, `other` where the
/// other one does.
pub open spec fn place_above(from: int, other: int) -> int {
    if from < other {
        other - 1
    } else {
        other
    }
}

/// The place to move a surface to so that it comes to stand directly
/// behind another.
pub open spec fn place_below(from: int, other: int) -> int {
    if from < other {
        other
    } else {
        other + 1
    }
}

/// Whether `list` holds the same surfaces as `stack`, each of them once: it
/// is then a reordering of `stack`, given that `stack` holds none twice.
pub open spec fn reorders(list: Seq<WlcView>, stack: Seq<WlcView>) -> bool {
    &&& list.no_duplicates()
    &&& forall|k: int| 0 <= k < list.len() ==> stack.contains(#[trigger] list[k])
    &&& forall|k: int| 0 <= k < stack.len() ==> list.contains(#[trigger] stack[k])
}

/// A move keeps the length of a stack and the surfaces in it, puts none in
/// twice, sets the moved surface at the place asked for, and leaves the
/// others in the order they had.
pub proof fn lemma_moved(s: Seq<WlcView>, from: int, to: int)
    requires
        s.no_duplicates(),
        0 <= from < s.len(),
        0 <= to < s.len(),
    ensures
        moved(s, from, to).len() == s.len(),
        moved(s, from, to).no_duplicates(),
        forall|x: WlcView| moved(s, from, to).contains(x) <==> s.contains(x),
        moved(s, from, to)[to] == s[from],
        moved(s, from, to).remove(to) == s.remove(from),
        from == to ==> moved(s, from, to) == s,
{
    let r = s.remove(from);
    let m = moved(s, from, to);
    assert(m.len() == s.len());
    assert forall|a: int, b: int| 0 <= a < m.len() && 0 <= b < m.len() && a != b implies m[a]
        != m[b] by {
        let sa = source(from, to, a);
        let sb = source(from, to, b);
        lemma_source(s, from, to, a);
        lemma_source(s, from, to, b);
        assert(sa != sb);
    }
    assert forall|x: WlcView| m.contains(x) <==> s.contains(x) by {
        if m.contains(x) {
            let a = choose|a: int| 0 <= a < m.len() && m[a] == x;
            lemma_source(s, from, to, a);
            assert(s[source(from, to, a)] == x);
        }
        if s.contains(x) {
            let b = choose|b: int| 0 <= b < s.len() && s[b] == x;
            let a = target(from, to, b);
            lemma_source(s, from, to, a);
            assert(m[a] == x);
        }
    }
    assert(m.remove(to) =~= r);
    if from == to {
        assert(m =~= s);
    }
}

/// Where the surface at place `a` of a moved stack stood before the move.
pub open spec fn source(from: int, to: int, a: int) -> int {
    if a == to {
        from
    } else {
        let b = if a < to {
            a
        } else {
            a - 1
        };
        if b < from {
            b
        } else {
            b + 1
        }
    }
}

/// Where the surface at place `b` of a stack stands after the move.
pub open spec fn target(from: int, to: int, b: int) -> int {
    if b == from {
        to
    } else {
        let c = if b < from {
            b
        } else {
            b - 1
        };
        if c < to {
            c
        } else {
            c + 1
        }
    }
}

/// `source` and `target` undo each other, and a moved stack holds at each
/// place what the stack held at that place's source.
pub proof fn lemma_source(s: Seq<WlcView>, from: int, to: int, a: int)
    requires
        0 <= from < s.len(),
        0 <= to < s.len(),
        0 <= a < s.len(),
    ensures
        0 <= source(from, to, a) < s.len(),
        0 <= target(from, to, a) < s.len(),
        moved(s, from, to)[a] == s[source(from, to, a)],
        target(from, to, source(from, to, a)) == a,
        source(from, to, target(from, to, a)) == a,
{
}

/// After a move to `place_above`, the moved surface stands directly in front
/// of the other one.
pub proof fn moved_above_stands_in_front(s: Seq<WlcView>, from: int, other: int)
    requires
        0 <= from < s.len(),
        0 <= other < s.len(),
        from != other,
    ensures
        0 <= place_above(from, other) < s.len() - 1,
        moved(s, from, place_above(from, other))[place_above(from, other)] == s[from],
        moved(s, from, place_above(from, other))[place_above(from, other) + 1] == s[other],
{
}

/// After a move to `place_below`, the moved surface stands directly behind
/// the other one.
pub proof fn moved_below_stands_behind(s: Seq<WlcView>, from: int, other: int)
    requires
        0 <= from < s.len(),
        0 <= other < s.len(),
        from != other,
    ensures
        1 <= place_below(from, other) < s.len(),
        moved(s, from, place_below(from, other))[place_below(from, other)] == s[from],
        moved(s, from, place_below(from, other))[place_below(from, other) - 1] == s[other],
{
}

/// The place of `view` in `stack`, if it stands there.
pub fn position(stack: &Vec<WlcView>, view: WlcView) -> (r: Option<usize>)
    ensures
        r is Some <==> stack@.contains(view),
        r matches Some(k) ==> k < stack.len() && stack@[k as int] == view,
        r matches Some(k) ==> stack@.no_duplicates() ==> stack@.index_of(view) == k,
{
    let mut k: usize = 0;
    while k < stack.len()
        invariant
            k <= stack.len(),
            forall|j: int| 0 <= j < k ==> stack@[j] != view,
        decreases stack.len() - k,
    {
        if stack[k] == view {
            proof {
                if stack@.no_duplicates() {
                    let c = stack@.index_of(view);
                    assert(0 <= c < stack@.len() && stack@[c] == view);
                }
            }
            return Some(k);
        }
        k += 1;
    }
    None
}

} // verus!
