//! In-place selection sort over `Vec<i32>`, ascending or descending.

use vstd::prelude::*;

verus! {

/// `a` may stand before `b` in the requested direction: `a <= b` when
/// `asc` is true, `a >= b` when it is false.
pub open spec fn in_order(a: i32, b: i32, asc: bool) -> bool {
    if asc {
        a <= b
    } else {
        a >= b
    }
}

/// Every pair of positions of `s` stands in the requested order.
pub open spec fn sorted_by(s: Seq<i32>, asc: bool) -> bool {
    forall|i: int, j: int| 0 <= i <= j < s.len() ==> in_order(#[trigger] s[i], #[trigger] s[j], asc)
}

/// Swapping two positions of a sequence leaves its multiset of elements
/// as it was.
proof fn lemma_swap_preserves_multiset(s: Seq<i32>, i: int, j: int)
    requires
        0 <= i < s.len(),
        0 <= j < s.len(),
    ensures
        s.update(i, s[j]).update(j, s[i]).to_multiset() == s.to_multiset(),
{
    broadcast use vstd::seq_lib::group_to_multiset_ensures;

    if i == j {
        assert(s.update(i, s[j]).update(j, s[i]) =~= s);
    } else {
        let u = s.update(i, s[j]);
        assert(u[j] == s[j]);
        assert(s.contains(s[i]));
        assert(s.to_multiset().count(s[i]) > 0);
        assert(u.to_multiset() == s.to_multiset().insert(s[j]).remove(s[i]));
        assert(u.update(j, s[i]).to_multiset() == u.to_multiset().insert(s[i]).remove(u[j]));
        assert(s.update(i, s[j]).update(j, s[i]).to_multiset() =~= s.to_multiset());
    }
}

/// A direction admits exactly one sorted arrangement: two sequences that
/// are sorted the same way and hold the same multiset of elements are
/// equal.  In particular, sorting leaves a sequence that is already sorted
/// in the requested direction unchanged, so sorting twice gives what
/// sorting once gives.
pub proof fn lemma_sorted_unique(s: Seq<i32>, t: Seq<i32>, asc: bool)
    requires
        sorted_by(s, asc),
        sorted_by(t, asc),
        s.to_multiset() == t.to_multiset(),
    ensures
        s == t,
    decreases s.len(),
{
    broadcast use vstd::seq_lib::group_to_multiset_ensures;

    assert(s.len() == s.to_multiset().len());
    assert(t.len() == t.to_multiset().len());
    if s.len() == 0 {
        assert(s =~= t);
    } else {
        assert(s.contains(s[0]));
        assert(t.contains(t[0]));
        assert(s.to_multiset().count(t[0]) > 0);
        assert(t.to_multiset().count(s[0]) > 0);
        assert(s.contains(t[0]));
        assert(t.contains(s[0]));
        let i = choose|i: int| 0 <= i < s.len() && s[i] == t[0];
        let k = choose|k: int| 0 <= k < t.len() && t[k] == s[0];
        assert(in_order(s[0], s[i], asc));
        assert(in_order(t[0], t[k], asc));
        assert(s[0] == t[0]);
        let s1 = s.remove(0);
        let t1 = t.remove(0);
        assert(s1.to_multiset() == s.to_multiset().remove(s[0]));
        assert(t1.to_multiset() == t.to_multiset().remove(t[0]));
        assert forall|x: int, y: int|
            0 <= x <= y < s1.len() implies in_order(#[trigger] s1[x], #[trigger] s1[y], asc) by {
            assert(s1[x] == s[x + 1]);
            assert(s1[y] == s[y + 1]);
        }
        assert forall|x: int, y: int|
            0 <= x <= y < t1.len() implies in_order(#[trigger] t1[x], #[trigger] t1[y], asc) by {
            assert(t1[x] == t[x + 1]);
            assert(t1[y] == t[y + 1]);
        }
        lemma_sorted_unique(s1, t1, asc);
        assert forall|x: int| 0 <= x < s.len() implies s[x] == t[x] by {
            if x > 0 {
                assert(s1[x - 1] == s[x]);
                assert(t1[x - 1] == t[x]);
            }
        }
        assert(s =~= t);
    }
}

/// Selection sort: for each position of the vector in turn, scan the
/// remaining suffix for its extreme element (the least for ascending
/// order, the greatest for descending order, taking the leftmost when
/// elements tie) and swap it into place.  Sorts in place; the vector
/// afterwards holds the same elements, arranged in the requested order,
/// and a vector of fewer than two elements comes back unchanged.
pub fn selection_sort(v: &mut Vec<i32>, asc: bool)
    ensures
        final(v)@.len() == old(v)@.len(),
        final(v)@.to_multiset() == old(v)@.to_multiset(),
        sorted_by(final(v)@, asc),
        old(v)@.len() < 2 ==> final(v)@ == old(v)@,
{
    if v.len() < 2 {
        return;
    }
    let n = v.len();
    for j in 0..n
        invariant
            n == v@.len(),
            n == old(v)@.len(),
            v@.to_multiset() == old(v)@.to_multiset(),
            sorted_by(v@.subrange(0, j as int), asc),
            forall|a: int, b: int|
                0 <= a < j && j <= b < n ==> in_order(#[trigger] v@[a], #[trigger] v@[b], asc),
    {
        let mut min_index: usize = j;
        let mut min_val: i32 = v[j];
        for k in (j + 1)..n
            invariant
                n == v@.len(),
                j < n,
                j <= min_index < n,
                min_val == v@[min_index as int],
                forall|t: int| j <= t < k ==> in_order(min_val, #[trigger] v@[t], asc),
        {
            let cur = v[k];
            if asc {
                if cur < min_val {
                    min_val = cur;
                    min_index = k;
                }
            } else {
                if cur > min_val {
                    min_val = cur;
                    min_index = k;
                }
            }
        }
        let ghost before = v@;
        let ghost jj = j as int;
        let ghost mm = min_index as int;
        let a = v[j];
        let b = v[min_index];
        v[j] = b;
        v[min_index] = a;
        proof {
            assert(v@ == before.update(jj, before[mm]).update(mm, before[jj]));
            lemma_swap_preserves_multiset(before, jj, mm);
            assert forall|x: int, y: int|
                0 <= x <= y < jj + 1 implies in_order(
                #[trigger] v@.subrange(0, jj + 1)[x],
                #[trigger] v@.subrange(0, jj + 1)[y],
                asc,
            ) by {
                assert(v@.subrange(0, jj + 1)[x] == v@[x]);
                assert(v@.subrange(0, jj + 1)[y] == v@[y]);
                if y < jj {
                    assert(v@[x] == before[x]);
                    assert(v@[y] == before[y]);
                    assert(in_order(
                        before.subrange(0, jj)[x],
                        before.subrange(0, jj)[y],
                        asc,
                    ));
                } else if x < jj {
                    assert(v@[x] == before[x]);
                    assert(v@[y] == before[mm]);
                    assert(in_order(before[x], before[mm], asc));
                }
            }
            assert(sorted_by(v@.subrange(0, jj + 1), asc));
            assert forall|x: int, y: int|
                0 <= x < jj + 1 && jj + 1 <= y < n implies in_order(
                #[trigger] v@[x],
                #[trigger] v@[y],
                asc,
            ) by {
                if x < jj {
                    assert(v@[x] == before[x]);
                    assert(in_order(before[x], before[y], asc));
                    assert(in_order(before[x], before[jj], asc));
                } else {
                    assert(v@[x] == before[mm]);
                    assert(in_order(min_val, before[y], asc));
                    assert(in_order(min_val, before[jj], asc));
                }
                if y == mm {
                    assert(v@[y] == before[jj]);
                } else {
                    assert(v@[y] == before[y]);
                }
            }
        }
    }
    proof {
        assert(v@.subrange(0, n as int) =~= v@);
    }
}

} // verus!
