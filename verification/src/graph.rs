//! A dependency-respecting processing order over workspace members.
//!
//! Members are identified by their index.  `deps[a]` lists the members that
//! `a` depends on; the order places every dependency before its dependents.

use vstd::prelude::*;

verus! {

/// Every edge targets a member of the graph.
pub open spec fn wf_graph(deps: Seq<Vec<usize>>) -> bool {
    forall|a: int, k: int|
        0 <= a < deps.len() && 0 <= k < deps[a]@.len() ==> (#[trigger] deps[a]@[k]) < deps.len()
}

/// A witness that the graph has no cycle: a rank that strictly decreases
/// along every dependency edge.
pub open spec fn rank_respects(deps: Seq<Vec<usize>>, rank: Map<int, int>) -> bool {
    forall|a: int, k: int|
        0 <= a < deps.len() && 0 <= k < deps[a]@.len() ==> rank[(#[trigger] deps[a]@[k]) as int]
            < rank[a]
}

/// A graph is acyclic when some rank witness orders it.
pub open spec fn acyclic(deps: Seq<Vec<usize>>) -> bool {
    exists|rank: Map<int, int>| rank_respects(deps, rank)
}

/// Whether `x` occurs in `s`.
pub open spec fn occurs(s: Seq<usize>, x: usize) -> bool {
    exists|q: int| 0 <= q < s.len() && s[q] == x
}

/// The dependency of `sorted[p]` named by edge `k` appears before `p`.
pub open spec fn dep_before(deps: Seq<Vec<usize>>, sorted: Seq<usize>, p: int, k: int) -> bool {
    exists|q: int| 0 <= q < p && sorted[q] == deps[sorted[p] as int]@[k]
}

/// The number of `true` entries.
pub open spec fn count_true(s: Seq<bool>) -> int
    decreases s.len(),
{
    if s.len() == 0 {
        0
    } else {
        count_true(s.drop_last()) + if s.last() {
            1int
        } else {
            0int
        }
    }
}

proof fn lemma_count_true_bound(s: Seq<bool>)
    ensures
        0 <= count_true(s) <= s.len(),
    decreases s.len(),
{
    if s.len() > 0 {
        lemma_count_true_bound(s.drop_last());
    }
}

proof fn lemma_count_true_update(s: Seq<bool>, i: int)
    requires
        0 <= i < s.len(),
        !s[i],
    ensures
        count_true(s.update(i, true)) == count_true(s) + 1,
    decreases s.len(),
{
    let t = s.update(i, true);
    if i == s.len() - 1 {
        assert(t.drop_last() =~= s.drop_last());
    } else {
        assert(t.drop_last() =~= s.drop_last().update(i, true));
        lemma_count_true_update(s.drop_last(), i);
    }
}

proof fn lemma_count_true_monotone(a: Seq<bool>, b: Seq<bool>)
    requires
        a.len() == b.len(),
        forall|x: int| 0 <= x < a.len() ==> a[x] ==> b[x],
    ensures
        count_true(a) <= count_true(b),
    decreases a.len(),
{
    if a.len() > 0 {
        lemma_count_true_monotone(a.drop_last(), b.drop_last());
    }
}

proof fn lemma_count_true_full(s: Seq<bool>)
    requires
        forall|x: int| 0 <= x < s.len() ==> s[x],
    ensures
        count_true(s) == s.len(),
    decreases s.len(),
{
    if s.len() > 0 {
        lemma_count_true_full(s.drop_last());
    }
}

proof fn lemma_count_zero_when_all_false(s: Seq<bool>)
    requires
        forall|x: int| 0 <= x < s.len() ==> !s[x],
    ensures
        count_true(s) == 0,
    decreases s.len(),
{
    if s.len() > 0 {
        lemma_count_zero_when_all_false(s.drop_last());
    }
}

/// The running invariant of the depth-first visit: `sorted` is a
/// duplicate-free, dependency-closed prefix of the final order, and every
/// visited member is either recorded or still on the visiting path.
pub open spec fn visit_inv(
    deps: Seq<Vec<usize>>,
    visited: Seq<bool>,
    sorted: Seq<usize>,
    path: Seq<usize>,
) -> bool {
    &&& visited.len() == deps.len()
    &&& forall|p: int|
        0 <= p < sorted.len() ==> (#[trigger] sorted[p]) < deps.len() && visited[sorted[p] as int]
    &&& forall|p: int, q: int| 0 <= p < q < sorted.len() ==> sorted[p] != sorted[q]
    &&& forall|p: int, k: int|
        0 <= p < sorted.len() && 0 <= k < deps[sorted[p] as int]@.len() ==> #[trigger] dep_before(
            deps,
            sorted,
            p,
            k,
        )
    &&& forall|j: int|
        0 <= j < path.len() ==> (#[trigger] path[j]) < deps.len() && visited[path[j] as int]
    &&& forall|j: int| 0 <= j < path.len() ==> !occurs(sorted, #[trigger] path[j])
    &&& forall|x: usize|
        (x as int) < deps.len() && visited[x as int] ==> occurs(sorted, x) || occurs(path, x)
    &&& sorted.len() + path.len() == count_true(visited)
}

proof fn lemma_inv_topo(
    deps: Seq<Vec<usize>>,
    visited: Seq<bool>,
    sorted: Seq<usize>,
    path: Seq<usize>,
    p: int,
    k: int,
)
    requires
        visit_inv(deps, visited, sorted, path),
        0 <= p < sorted.len(),
        0 <= k < deps[sorted[p] as int]@.len(),
    ensures
        exists|q: int| 0 <= q < p && sorted[q] == deps[sorted[p] as int]@[k],
{
    assert(dep_before(deps, sorted, p, k));
}

fn sort_inner(
    deps: &Vec<Vec<usize>>,
    v: usize,
    visited: &mut Vec<bool>,
    sorted: &mut Vec<usize>,
    Ghost(path): Ghost<Seq<usize>>,
    Ghost(rank): Ghost<Map<int, int>>,
)
    requires
        wf_graph(deps@),
        rank_respects(deps@, rank),
        visit_inv(deps@, old(visited)@, old(sorted)@, path),
        v < deps@.len(),
        forall|j: int| 0 <= j < path.len() ==> rank[v as int] < rank[(#[trigger] path[j]) as int],
        forall|i: int, j: int|
            0 <= i < j < path.len() ==> rank[path[j] as int] < rank[path[i] as int],
    ensures
        visit_inv(deps@, final(visited)@, final(sorted)@, path),
        final(visited)@.len() == old(visited)@.len(),
        forall|x: int| 0 <= x < old(visited)@.len() ==> old(visited)@[x] ==> final(visited)@[x],
        old(sorted)@.len() <= final(sorted)@.len(),
        forall|p: int| 0 <= p < old(sorted)@.len() ==> final(sorted)@[p] == old(sorted)@[p],
        final(visited)@[v as int],
        occurs(final(sorted)@, v),
    decreases deps@.len() - count_true(old(visited)@),
{
    proof {
        lemma_count_true_bound(visited@);
    }
    if visited[v] {
        proof {
            // `v` cannot lie on the visiting path: its rank is below every
            // rank on the path.  So it has already been recorded.
            assert forall|j: int| 0 <= j < path.len() implies path[j] != v by {
                assert(rank[v as int] < rank[path[j] as int]);
            }
            assert(!occurs(path, v));
            assert(occurs(sorted@, v));
        }
        return ;
    }
    let ghost visited0 = visited@;
    let ghost sorted0 = sorted@;
    visited.set(v, true);
    proof {
        lemma_count_true_update(visited0, v as int);
    }
    let ghost path2 = path.push(v);
    let ghost mark_count = count_true(visited@);
    proof {
        assert(!occurs(sorted@, v));
        assert forall|p: int, k: int|
            0 <= p < sorted@.len() && 0 <= k < deps@[sorted@[p] as int]@.len() implies #[trigger] dep_before(
            deps@,
            sorted@,
            p,
            k,
        ) by {
            assert(dep_before(deps@, old(sorted)@, p, k));
        }
        assert forall|j: int|
            0 <= j < path2.len() implies (#[trigger] path2[j]) < deps@.len()
                && visited@[path2[j] as int] by {
            if j < path.len() {
                assert(path2[j] == path[j]);
            } else {
                assert(path2[j] == v);
            }
        }
        assert forall|j: int| 0 <= j < path2.len() implies !occurs(
            sorted@,
            #[trigger] path2[j],
        ) by {
            if j < path.len() {
                assert(!occurs(sorted@, path[j]));
            } else {
                assert(path2[j] == v);
            }
        }
        assert forall|x: usize|
            (x as int) < deps@.len() && visited@[x as int] implies occurs(sorted@, x) || occurs(
            path2,
            x,
        ) by {
            if x == v {
                assert(path2[path.len() as int] == x);
            } else {
                assert(visited0[x as int] == visited@[x as int]);
                if visited0[x as int] {
                    assert(occurs(sorted@, x) || occurs(path, x));
                    if occurs(path, x) {
                        let j = choose|j: int| 0 <= j < path.len() && path[j] == x;
                        assert(path2[j] == x);
                    }
                }
            }
        }
        assert(visit_inv(deps@, visited@, sorted@, path2));
    }
    let n_deps = deps[v].len();
    let mut k: usize = 0;
    while k < n_deps
        invariant
            wf_graph(deps@),
            rank_respects(deps@, rank),
            v < deps@.len(),
            n_deps == deps@[v as int]@.len(),
            k <= n_deps,
            path2 == path.push(v),
            visited0 == old(visited)@,
            sorted0 == old(sorted)@,
            forall|j: int|
                0 <= j < path.len() ==> rank[v as int] < rank[(#[trigger] path[j]) as int],
            forall|i: int, j: int|
                0 <= i < j < path.len() ==> rank[path[j] as int] < rank[path[i] as int],
            visit_inv(deps@, visited@, sorted@, path2),
            visited@.len() == deps@.len(),
            visited0.len() == deps@.len(),
            visited@[v as int],
            mark_count == count_true(visited0) + 1,
            mark_count <= count_true(visited@),
            forall|x: int| 0 <= x < visited0.len() ==> visited0[x] ==> visited@[x],
            sorted0.len() <= sorted@.len(),
            forall|p: int| 0 <= p < sorted0.len() ==> sorted@[p] == sorted0[p],
            forall|kk: int| 0 <= kk < k ==> occurs(sorted@, deps@[v as int]@[kk]),
        decreases n_deps - k,
    {
        let c = deps[v][k];
        proof {
            assert(c == deps@[v as int]@[k as int]);
            assert(rank[c as int] < rank[v as int]);
            assert forall|j: int|
                0 <= j < path2.len() implies rank[c as int] < rank[(#[trigger] path2[j]) as int] by {
                if j < path.len() {
                    assert(rank[v as int] < rank[path[j] as int]);
                } else {
                    assert(path2[j] == v);
                }
            }
            assert forall|i: int, j: int|
                0 <= i < j < path2.len() implies rank[path2[j] as int] < rank[path2[i] as int] by {
                if j < path.len() {
                } else {
                    assert(path2[j] == v);
                    assert(rank[v as int] < rank[path[i] as int]);
                }
            }
            lemma_count_true_bound(visited@);
        }
        let ghost sorted_before = sorted@;
        let ghost visited_before = visited@;
        sort_inner(deps, c, visited, sorted, Ghost(path2), Ghost(rank));
        proof {
            lemma_count_true_monotone(visited_before, visited@);
            assert forall|kk: int| 0 <= kk < k + 1 implies occurs(
                sorted@,
                deps@[v as int]@[kk],
            ) by {
                if kk < k {
                    assert(occurs(sorted_before, deps@[v as int]@[kk]));
                    let q = choose|q: int|
                        0 <= q < sorted_before.len() && sorted_before[q] == deps@[v as int]@[kk];
                    assert(sorted@[q] == deps@[v as int]@[kk]);
                }
            }
        }
        k += 1;
    }
    let ghost sorted1 = sorted@;
    let ghost visited1 = visited@;
    sorted.push(v);
    proof {
        // Re-establish the invariant with `v` moved from the path into the
        // recorded order.
        assert(sorted@ =~= sorted1.push(v));
        assert(visit_inv(deps@, visited1, sorted1, path2));
        assert(path2[path.len() as int] == v);
        assert(!occurs(sorted1, v));
        assert forall|p: int|
            0 <= p < sorted@.len() implies (#[trigger] sorted@[p]) < deps@.len()
                && visited@[sorted@[p] as int] by {
            if p < sorted1.len() {
                assert(sorted@[p] == sorted1[p]);
            } else {
                assert(sorted@[p] == v);
            }
        }
        assert forall|p: int, q: int|
            0 <= p < q < sorted@.len() implies sorted@[p] != sorted@[q] by {
            if q < sorted1.len() {
            } else {
                assert(sorted@[q] == v);
                assert(sorted@[p] == sorted1[p]);
            }
        }
        assert forall|p: int, kk: int|
            0 <= p < sorted@.len() && 0 <= kk < deps@[sorted@[p] as int]@.len() implies #[trigger] dep_before(
            deps@,
            sorted@,
            p,
            kk,
        ) by {
            if p < sorted1.len() {
                lemma_inv_topo(deps@, visited1, sorted1, path2, p, kk);
                let q = choose|q: int|
                    0 <= q < p && sorted1[q] == deps@[sorted1[p] as int]@[kk];
                assert(sorted@[q] == deps@[sorted@[p] as int]@[kk]);
            } else {
                assert(sorted@[p] == v);
                assert(occurs(sorted1, deps@[v as int]@[kk]));
                let q = choose|q: int|
                    0 <= q < sorted1.len() && sorted1[q] == deps@[v as int]@[kk];
                assert(sorted@[q] == deps@[sorted@[p] as int]@[kk]);
            }
        }
        assert forall|j: int| 0 <= j < path.len() implies !occurs(sorted@, #[trigger] path[j]) by {
            assert(path2[j] == path[j]);
            assert(!occurs(sorted1, path2[j]));
            if occurs(sorted@, path[j]) {
                let q = choose|q: int| 0 <= q < sorted@.len() && sorted@[q] == path[j];
                if q < sorted1.len() {
                    assert(sorted1[q] == path[j]);
                    assert(false);
                } else {
                    assert(sorted@[q] == v);
                    assert(path[j] == v);
                    assert(rank[v as int] < rank[path[j] as int]);
                    assert(false);
                }
            }
        }
        assert forall|x: usize|
            (x as int) < deps@.len() && visited@[x as int] implies occurs(sorted@, x) || occurs(
            path,
            x,
        ) by {
            assert(occurs(sorted1, x) || occurs(path2, x));
            if occurs(sorted1, x) {
                let q = choose|q: int| 0 <= q < sorted1.len() && sorted1[q] == x;
                assert(sorted@[q] == x);
            } else {
                let j = choose|j: int| 0 <= j < path2.len() && path2[j] == x;
                if j == path.len() {
                    assert(x == v);
                    assert(sorted@[sorted1.len() as int] == v);
                } else {
                    assert(path[j] == x);
                }
            }
        }
        assert(visit_inv(deps@, visited@, sorted@, path));
        assert(occurs(sorted@, v));
        assert forall|x: int| 0 <= x < visited0.len() && visited0[x] implies visited@[x] by {
            assert(visited0.update(v as int, true)[x]);
        }
    }
}

/// Computes a processing order over all members: a permutation of the
/// member indices in which every dependency appears before each of its
/// dependents.  The whole graph is ordered, so that any later selection of
/// a subset still respects relative order.
pub fn sort_workspace(deps: &Vec<Vec<usize>>) -> (r: Vec<usize>)
    requires
        wf_graph(deps@),
        acyclic(deps@),
    ensures
        r@.len() == deps@.len(),
        forall|p: int| 0 <= p < r@.len() ==> (#[trigger] r@[p]) < deps@.len(),
        forall|p: int, q: int| 0 <= p < q < r@.len() ==> r@[p] != r@[q],
        forall|x: usize| (x as int) < deps@.len() ==> occurs(r@, x),
        forall|p: int, k: int|
            0 <= p < r@.len() && 0 <= k < deps@[r@[p] as int]@.len() ==> #[trigger] dep_before(
                deps@,
                r@,
                p,
                k,
            ),
{
    let ghost rank = choose|rank: Map<int, int>| rank_respects(deps@, rank);
    let n = deps.len();
    let mut visited: Vec<bool> = Vec::new();
    while visited.len() < n
        invariant
            visited@.len() <= n,
            forall|x: int| 0 <= x < visited@.len() ==> !visited@[x],
        decreases n - visited@.len(),
    {
        visited.push(false);
    }
    let mut sorted: Vec<usize> = Vec::new();
    proof {
        lemma_count_zero_when_all_false(visited@);
        assert(visit_inv(deps@, visited@, sorted@, Seq::<usize>::empty()));
    }
    let mut v: usize = 0;
    while v < n
        invariant
            n == deps@.len(),
            v <= n,
            wf_graph(deps@),
            rank_respects(deps@, rank),
            visit_inv(deps@, visited@, sorted@, Seq::<usize>::empty()),
            forall|x: int| 0 <= x < v ==> visited@[x],
        decreases n - v,
    {
        sort_inner(deps, v, &mut visited, &mut sorted, Ghost(Seq::empty()), Ghost(rank));
        v += 1;
    }
    proof {
        lemma_count_true_full(visited@);
        assert(sorted@.len() == deps@.len());
        assert forall|x: usize| (x as int) < deps@.len() implies occurs(sorted@, x) by {
            assert(visited@[x as int]);
        }
    }
    sorted
}

} // verus!
