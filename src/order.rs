//! Stable ordering of positions by an integer key.
use vstd::prelude::*;

verus! {

/// Position `x` comes before position `y`: a smaller key first, and equal
/// keys in their original order.
pub open spec fn comes_before(keys: Seq<i32>, x: int, y: int) -> bool {
    keys[x] < keys[y] || (keys[x] == keys[y] && x < y)
}

/// `x` occurs somewhere in `p`.
pub open spec fn occurs(p: Seq<int>, x: int) -> bool {
    exists|k: int| 0 <= k < p.len() && p[k] == x
}

/// `p` lists each of the positions `0..n` once, in stable ascending order
/// of their keys.
pub open spec fn is_stable_order(keys: Seq<i32>, n: int, p: Seq<int>) -> bool {
    &&& 0 <= n <= keys.len()
    &&& p.len() == n
    &&& forall|k: int| 0 <= k < n ==> 0 <= #[trigger] p[k] < n
    &&& forall|x: int| 0 <= x < n ==> #[trigger] occurs(p, x)
    &&& forall|a: int, b: int| 0 <= a < b < n ==> comes_before(keys, #[trigger] p[a], #[trigger] p[b])
}

/// The stable ascending order of all positions of `keys`.
pub open spec fn stable_order(keys: Seq<i32>) -> Seq<int> {
    choose|p: Seq<int>| is_stable_order(keys, keys.len() as int, p)
}

proof fn lemma_prefix_agrees(keys: Seq<i32>, n: int, p: Seq<int>, q: Seq<int>, m: int)
    requires
        is_stable_order(keys, n, p),
        is_stable_order(keys, n, q),
        0 <= m <= n,
    ensures
        forall|j: int| 0 <= j < m ==> p[j] == q[j],
    decreases m,
{
    if m > 0 {
        lemma_prefix_agrees(keys, n, p, q, m - 1);
        let k = m - 1;
        if p[k] != q[k] {
            let x = p[k];
            let y = q[k];
            assert(occurs(q, x) && occurs(p, y));
            let mx = choose|i: int| 0 <= i < n && q[i] == x;
            let my = choose|i: int| 0 <= i < n && p[i] == y;
            if mx < k {
                assert(p[mx] == q[mx]);
                assert(comes_before(keys, p[mx], p[k]));
            }
            if my < k {
                assert(p[my] == q[my]);
                assert(comes_before(keys, q[my], q[k]));
            }
            assert(mx > k && my > k);
            assert(comes_before(keys, q[k], q[mx]));
            assert(comes_before(keys, p[k], p[my]));
        }
    }
}

/// A stable order is unique: it is the one `stable_order` names.
pub proof fn lemma_stable_order_unique(keys: Seq<i32>, p: Seq<int>)
    requires
        is_stable_order(keys, keys.len() as int, p),
    ensures
        stable_order(keys) == p,
{
    let q = stable_order(keys);
    lemma_prefix_agrees(keys, keys.len() as int, p, q, keys.len() as int);
    assert(p =~= q);
}

/// Positions of `keys` in stable ascending order of their keys, computed by
/// insertion.
pub fn stable_positions(keys: &Vec<i32>) -> (r: Vec<usize>)
    ensures
        r@.len() == keys@.len(),
        r@.map_values(|i: usize| i as int) == stable_order(keys@),
        is_stable_order(keys@, keys@.len() as int, stable_order(keys@)),
{
    let mut p: Vec<usize> = Vec::new();
    let mut i: usize = 0;
    while i < keys.len()
        invariant
            i <= keys.len(),
            is_stable_order(keys@, i as int, p@.map_values(|x: usize| x as int)),
        decreases keys.len() - i,
    {
        let ghost old_p = p@.map_values(|x: usize| x as int);
        let mut pos: usize = p.len();
        assert forall|k: int| 0 <= k < p.len() implies p@[k] < i by {
            assert(old_p[k] == p@[k] as int);
        }
        while pos > 0 && keys[p[pos - 1]] > keys[i]
            invariant
                pos <= p.len(),
                p.len() == i,
                i < keys.len(),
                old_p == p@.map_values(|x: usize| x as int),
                forall|k: int| 0 <= k < p.len() ==> p@[k] < i,
                is_stable_order(keys@, i as int, old_p),
                forall|k: int| pos <= k < i ==> keys@[old_p[k]] > keys@[i as int],
            decreases pos,
        {
            pos = pos - 1;
        }
        proof {
            if pos > 0 {
                let ki = keys@[i as int];
                assert forall|k: int| 0 <= k < pos implies keys@[#[trigger] old_p[k]] <= ki by {
                    if k < pos - 1 {
                        assert(comes_before(keys@, old_p[k], old_p[pos - 1]));
                    }
                }
            }
        }
        p.insert(pos, i);
        let ghost new_p = p@.map_values(|x: usize| x as int);
        proof {
            assert(new_p =~= old_p.insert(pos as int, i as int));
            assert forall|x: int| 0 <= x < i + 1 implies #[trigger] occurs(new_p, x) by {
                if x == i {
                    assert(new_p[pos as int] == x);
                } else {
                    assert(occurs(old_p, x));
                    let k = choose|k: int| 0 <= k < i && old_p[k] == x;
                    if k < pos {
                        assert(new_p[k] == x);
                    } else {
                        assert(new_p[k + 1] == x);
                    }
                }
            }
            assert forall|a: int, b: int| 0 <= a < b < i + 1 implies comes_before(
                keys@,
                #[trigger] new_p[a],
                #[trigger] new_p[b],
            ) by {
                if b < pos {
                    assert(new_p[a] == old_p[a] && new_p[b] == old_p[b]);
                } else if b == pos {
                    assert(new_p[a] == old_p[a]);
                } else if a > pos {
                    assert(new_p[a] == old_p[a - 1] && new_p[b] == old_p[b - 1]);
                } else if a == pos {
                    assert(new_p[b] == old_p[b - 1]);
                } else {
                    assert(new_p[a] == old_p[a] && new_p[b] == old_p[b - 1]);
                }
            }
        }
        i = i + 1;
    }
    proof {
        lemma_stable_order_unique(keys@, p@.map_values(|x: usize| x as int));
    }
    p
}

} // verus!
