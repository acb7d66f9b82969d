//! The transitive closure of the custom types that a type refers to.
use vstd::prelude::*;
use vstd::set_lib::*;
use crate::index::{index_wf, package_position, IndexView, TypeIndex, find_package};
use crate::proto::{FieldKindView, FieldType, FieldView, Types, TypesView};

verus! {

/// The positions that `v` holds, as a set of integers.
pub open spec fn seen(v: Seq<usize>) -> Set<int> {
    Set::new(|x: int| exists|k: int| 0 <= k < v.len() && v[k] as int == x)
}

/// How many of the positions `0..n` are not yet in `v`.
pub open spec fn budget(n: int, v: Seq<usize>) -> nat {
    set_int_range(0, n).difference(seen(v)).len()
}

/// `a` is a prefix of `b`.
pub open spec fn is_prefix(a: Seq<usize>, b: Seq<usize>) -> bool {
    a.len() <= b.len() && b.subrange(0, a.len() as int) == a
}

/// Visiting a new position uses up one unit of the budget.
pub proof fn lemma_budget_push(n: int, v: Seq<usize>, h: usize)
    requires
        0 <= h < n,
        !v.contains(h),
    ensures
        budget(n, v.push(h)) < budget(n, v),
{
    lemma_int_range(0, n);
    let d = set_int_range(0, n).difference(seen(v));
    lemma_len_subset(d, set_int_range(0, n));
    assert(!seen(v).contains(h as int)) by {
        if seen(v).contains(h as int) {
            let k = choose|k: int| 0 <= k < v.len() && v[k] as int == h as int;
            assert(v[k] == h);
        }
    }
    assert(set_int_range(0, n).difference(seen(v.push(h))) =~= d.remove(h as int)) by {
        assert forall|x: int| seen(v.push(h)).contains(x) <==> seen(v).contains(x) || x == h as int by {
            if seen(v.push(h)).contains(x) {
                let k = choose|k: int| 0 <= k < v.push(h).len() && v.push(h)[k] as int == x;
                if k < v.len() {
                    assert(v[k] as int == x);
                }
            }
            if seen(v).contains(x) {
                let k = choose|k: int| 0 <= k < v.len() && v[k] as int == x;
                assert(v.push(h)[k] as int == x);
            }
            if x == h as int {
                assert(v.push(h)[v.len() as int] as int == x);
            }
        }
    }
    assert(d.contains(h as int));
}

/// Extending the visited positions never grows the budget.
pub proof fn lemma_budget_prefix(n: int, a: Seq<usize>, b: Seq<usize>)
    requires
        0 <= n,
        is_prefix(a, b),
    ensures
        budget(n, b) <= budget(n, a),
{
    lemma_int_range(0, n);
    let da = set_int_range(0, n).difference(seen(a));
    let db = set_int_range(0, n).difference(seen(b));
    lemma_len_subset(da, set_int_range(0, n));
    assert forall|x: int| db.contains(x) implies da.contains(x) by {
        if seen(a).contains(x) {
            let k = choose|k: int| 0 <= k < a.len() && a[k] as int == x;
            assert(b[k] == a[k]);
        }
    }
    lemma_len_subset(db, da);
}

/// Depth-first, pre-order walk from node `h`: the visited positions `v`
/// extended by every node that the custom fields of `h` lead to.
pub open spec fn reach_node(ix: IndexView, h: usize, v: Seq<usize>) -> Seq<usize>
    decreases budget(ix.types.len() as int, v), 2nat, 0nat,
{
    if (h as int) < ix.types.len() {
        match ix.types[h as int] {
            TypesView::Message(m) => reach_fields(ix, m.fields, 0, v),
            TypesView::Enum(_) => v,
        }
    } else {
        v
    }
}

/// The walk over the fields `fs[i..]`, in order.
pub open spec fn reach_fields(ix: IndexView, fs: Seq<FieldView>, i: nat, v: Seq<usize>) -> Seq<usize>
    decreases budget(ix.types.len() as int, v), 1nat, fs.len() - i,
{
    if i >= fs.len() {
        v
    } else {
        let v1 = match fs[i as int].kind {
            FieldKindView::Custom(q) => match package_position(ix.packages, q.package) {
                Some(p) => reach_members(ix, ix.packages[p].members, q.name, 0, v),
                None => v,
            },
            FieldKindView::WellKnown(_) => v,
        };
        if is_prefix(v, v1) {
            proof {
                lemma_budget_prefix(ix.types.len() as int, v, v1);
            }
            reach_fields(ix, fs, i + 1, v1)
        } else {
            v1
        }
    }
}

/// The walk over the members `ms[j..]` of a package: each not yet visited
/// node named `name` is visited, then walked from.
pub open spec fn reach_members(ix: IndexView, ms: Seq<usize>, name: Seq<char>, j: nat, v: Seq<usize>) -> Seq<usize>
    decreases budget(ix.types.len() as int, v), 0nat, ms.len() - j,
{
    if j >= ms.len() {
        v
    } else {
        let h = ms[j as int];
        if (h as int) < ix.types.len() && ix.types[h as int].name() == name && !v.contains(h) {
            proof {
                lemma_budget_push(ix.types.len() as int, v, h);
            }
            let v1 = reach_node(ix, h, v.push(h));
            if is_prefix(v, v1) {
                proof {
                    lemma_budget_prefix(ix.types.len() as int, v, v1);
                }
                reach_members(ix, ms, name, j + 1, v1)
            } else {
                v1
            }
        } else {
            reach_members(ix, ms, name, j + 1, v)
        }
    }
}

/// The types reachable from node `t`, without `t` itself, each once, in
/// the order in which a depth-first walk first meets them.
pub open spec fn closure_of(ix: IndexView, t: usize) -> Seq<usize> {
    reach_node(ix, t, seq![t]).drop_first()
}


/// No position occurs twice in `v`.
pub open spec fn distinct(v: Seq<usize>) -> bool {
    forall|a: int, b: int| 0 <= a < b < v.len() ==> v[a] != v[b]
}

/// Every position in `v` addresses one of `n` nodes.
pub open spec fn all_below(v: Seq<usize>, n: int) -> bool {
    forall|k: int| 0 <= k < v.len() ==> (#[trigger] v[k] as int) < n
}

/// Whether `v` holds `h`.
fn contains_position(v: &Vec<usize>, h: usize) -> (r: bool)
    ensures
        r == v@.contains(h),
{
    let mut k: usize = 0;
    while k < v.len()
        invariant
            k <= v@.len(),
            forall|j: int| 0 <= j < k ==> v@[j] != h,
        decreases v@.len() - k,
    {
        if v[k] == h {
            return true;
        }
        k = k + 1;
    }
    false
}

/// Walks from node `ty`, appending each newly met node to `visited`.
fn collect(types: &TypeIndex, ty: usize, visited: &mut Vec<usize>, Ghost(bound): Ghost<nat>)
    requires
        budget(types@.types.len() as int, old(visited)@) <= bound,
        index_wf(types@),
        (ty as int) < types@.types.len(),
        distinct(old(visited)@),
        all_below(old(visited)@, types@.types.len() as int),
    ensures
        final(visited)@ == reach_node(types@, ty, old(visited)@),
        is_prefix(old(visited)@, final(visited)@),
        distinct(final(visited)@),
        all_below(final(visited)@, types@.types.len() as int),
    decreases bound,
{
    let ghost ix = types@;
    let ghost n = ix.types.len() as int;
    let ghost v0 = visited@;
    assert(v0.subrange(0, v0.len() as int) =~= v0);
    assert(ix.types[ty as int] == types.types@[ty as int]@);
    match &types.types[ty] {
        Types::Enum(_) => {},
        Types::Message(m) => {
            let ghost fs = m@.fields;
            assert(reach_node(ix, ty, v0) == reach_fields(ix, fs, 0, v0));
            let mut i: usize = 0;
            while i < m.fields.len()
                invariant
                    ix == types@,
                    n == ix.types.len(),
                    index_wf(ix),
                    fs == m@.fields,
                    i <= fs.len(),
                    reach_fields(ix, fs, 0, v0) == reach_fields(ix, fs, i as nat, visited@),
                    is_prefix(v0, visited@),
                    distinct(visited@),
                    all_below(visited@, n),
                    budget(n, visited@) <= budget(n, v0),
                    budget(n, v0) <= bound,
                decreases fs.len() - i,
            {
                let ghost vf = visited@;
                assert(vf.subrange(0, vf.len() as int) =~= vf);
                assert(fs[i as int] == m.fields@[i as int]@);
                if let FieldType::Custom(c) = &m.fields[i].ty {
                    if let Some(p) = find_package(&types.packages, &c.name.package) {
                        let members = &types.packages[p].members;
                        let ghost ms = ix.packages[p as int].members;
                        let ghost name = c.name.name@;
                        assert(members@ == ms);
                        let mut j: usize = 0;
                        while j < members.len()
                            invariant
                                ix == types@,
                                n == ix.types.len(),
                                index_wf(ix),
                                p < ix.packages.len(),
                                members@ == ms,
                                ms == ix.packages[p as int].members,
                                j <= ms.len(),
                                reach_members(ix, ms, name, 0, vf) == reach_members(ix, ms, name, j as nat, visited@),
                                name == c.name.name@,
                                is_prefix(v0, vf),
                                is_prefix(vf, visited@),
                                distinct(visited@),
                                all_below(visited@, n),
                                budget(n, vf) <= budget(n, v0),
                                budget(n, v0) <= bound,
                            decreases ms.len() - j,
                        {
                            let h = members[j];
                            assert(ms[j as int] < n);
                            assert(ix.types[h as int] == types.types@[h as int]@);
                            let ghost vb = visited@;
                            if types.types[h].has_name(c.name.name.as_str()) && !contains_position(visited, h) {
                                visited.push(h);
                                proof {
                                    lemma_budget_prefix(n, vf, vb);
                                    lemma_budget_push(n, vb, h);
                                    assert(visited@ == vb.push(h));
                                    assert(budget(n, visited@) < budget(n, v0));
                                    assert forall|a: int, b: int| 0 <= a < b < visited@.len() implies visited@[a] != visited@[b] by {
                                        if b == vb.len() {
                                            assert(visited@[a] == vb[a]);
                                        }
                                    }
                                }
                                collect(types, h, visited, Ghost((bound - 1) as nat));
                                proof {
                                    assert(visited@.subrange(0, vb.len() as int) =~= vb.push(h).subrange(0, vb.len() as int));
                                    assert(vb.push(h).subrange(0, vb.len() as int) =~= vb);
                                    assert(visited@.subrange(0, vf.len() as int) =~= vb.subrange(0, vf.len() as int));
                                    assert(visited@.subrange(0, v0.len() as int) =~= vb.subrange(0, v0.len() as int));
                                }
                            }
                            j = j + 1;
                        }
                    }
                }
                proof {
                    lemma_budget_prefix(n, vf, visited@);
                    assert(visited@.subrange(0, v0.len() as int) =~= vf.subrange(0, v0.len() as int));
                }
                i = i + 1;
            }
        },
    }
}

/// Descend field message types starting from `ty` recursively and return
/// them: every type reachable through custom fields, `ty` excluded, each
/// once, in depth-first pre-order. A field whose package has no bucket is
/// skipped.
pub fn gather_types(ty: usize, types: &TypeIndex) -> (r: Vec<usize>)
    requires
        index_wf(types@),
        (ty as int) < types@.types.len(),
    ensures
        r@ == closure_of(types@, ty),
        distinct(r@),
        !r@.contains(ty),
        all_below(r@, types@.types.len() as int),
{
    let mut visited: Vec<usize> = Vec::new();
    visited.push(ty);
    assert(visited@ =~= seq![ty]);
    collect(types, ty, &mut visited, Ghost(budget(types@.types.len() as int, seq![ty])));
    assert(visited@.subrange(0, 1)[0] == visited@[0]);
    let mut r: Vec<usize> = Vec::new();
    let mut k: usize = 1;
    while k < visited.len()
        invariant
            1 <= k <= visited@.len(),
            visited@[0] == ty,
            distinct(visited@),
            all_below(visited@, types@.types.len() as int),
            r@ == visited@.subrange(1, k as int),
        decreases visited@.len() - k,
    {
        r.push(visited[k]);
        k = k + 1;
        assert(r@ =~= visited@.subrange(1, k as int));
    }
    assert(r@ =~= visited@.drop_first());
    assert forall|k2: int| 0 <= k2 < r@.len() implies r@[k2] != ty by {
        assert(r@[k2] == visited@[k2 + 1]);
    }
    r
}

} // verus!
