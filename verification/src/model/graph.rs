//! Ordering the nodes of a dependency graph so that each node comes after
//! the nodes it depends on.
//!
//! A graph of `n` nodes is given by its edges: `edges[i]` lists the nodes that
//! node `i` depends on.

use vstd::prelude::*;

verus! {

/// Every edge leads to a node of the graph.
pub open spec fn edges_in_range(edges: Seq<Vec<usize>>) -> bool {
    forall|i: int, e: int|
        0 <= i < edges.len() && 0 <= e < edges[i]@.len() ==> (#[trigger] edges[i]@[e])
            < edges.len()
}

/// `x` stands in `order` before position `k`.
pub open spec fn placed_before(order: Seq<usize>, k: int, x: usize) -> bool {
    exists|j: int| 0 <= j < k && order[j] == x
}

/// `order` lists nodes of the graph, none twice, each after all the nodes it
/// depends on.
pub open spec fn is_schedule(order: Seq<usize>, edges: Seq<Vec<usize>>) -> bool {
    &&& forall|k: int| 0 <= k < order.len() ==> (#[trigger] order[k]) < edges.len()
    &&& forall|k: int, l: int| 0 <= k < l < order.len() ==> order[k] != order[l]
    &&& forall|k: int, e: int|
        0 <= k < order.len() && 0 <= e < edges[order[k] as int]@.len() ==> placed_before(
            order,
            k,
            #[trigger] edges[order[k] as int]@[e],
        )
}

/// Node `i` can be put in order: some schedule holds it. A node that lies on
/// a cycle of dependencies, or depends on one that does, cannot.
pub open spec fn orderable(edges: Seq<Vec<usize>>, i: usize) -> bool {
    exists|order: Seq<usize>| is_schedule(order, edges) && order.contains(i)
}

/// The number of `false` entries of `flags`.
pub open spec fn unset(flags: Seq<bool>) -> nat
    decreases flags.len(),
{
    if flags.len() == 0 {
        0
    } else {
        unset(flags.drop_last()) + if flags.last() {
            0nat
        } else {
            1nat
        }
    }
}

proof fn lemma_unset_update(flags: Seq<bool>, i: int)
    requires
        0 <= i < flags.len(),
        !flags[i],
    ensures
        unset(flags.update(i, true)) + 1 == unset(flags),
    decreases flags.len(),
{
    let after = flags.update(i, true);
    if i == flags.len() - 1 {
        assert(after.drop_last() =~= flags.drop_last());
    } else {
        lemma_unset_update(flags.drop_last(), i);
        assert(after.drop_last() =~= flags.drop_last().update(i, true));
    }
}

/// No schedule holds a node that is stuck: where every node that is not
/// placed depends on one that is not placed, a schedule holds placed nodes
/// only.
proof fn lemma_stuck(w: Seq<usize>, edges: Seq<Vec<usize>>, placed: Seq<bool>, k: int)
    requires
        is_schedule(w, edges),
        placed.len() == edges.len(),
        0 <= k < w.len(),
        forall|i: int|
            0 <= i < edges.len() && !placed[i] ==> exists|e: int|
                0 <= e < edges[i]@.len() && edges[i]@[e] < edges.len() && !placed[(
                #[trigger] edges[i]@[e]) as int],
    ensures
        placed[w[k] as int],
    decreases k,
{
    let i = w[k] as int;
    if !placed[i] {
        let e = choose|e: int|
            0 <= e < edges[i]@.len() && edges[i]@[e] < edges.len() && !placed[(
            #[trigger] edges[i]@[e]) as int];
        let d = edges[i]@[e];
        let j = choose|j: int| 0 <= j < k && w[j] == d;
        lemma_stuck(w, edges, placed, j);
    }
}

/// Whether every node that node `i` depends on is placed.
fn dependencies_placed(edges: &Vec<Vec<usize>>, placed: &Vec<bool>, i: usize) -> (b: bool)
    requires
        i < edges.len(),
        placed.len() == edges.len(),
        edges_in_range(edges@),
    ensures
        b == forall|e: int| 0 <= e < edges@[i as int]@.len() ==> placed@[(
        #[trigger] edges@[i as int]@[e]) as int],
{
    let mut e: usize = 0;
    while e < edges[i].len()
        invariant
            i < edges.len(),
            placed.len() == edges.len(),
            edges_in_range(edges@),
            e <= edges@[i as int]@.len(),
            forall|x: int| 0 <= x < e ==> placed@[(#[trigger] edges@[i as int]@[x]) as int],
        decreases edges@[i as int]@.len() - e,
    {
        if !placed[edges[i][e]] {
            return false;
        }
        e = e + 1;
    }
    true
}

/// A schedule of all the nodes that can be put in order: at each turn the
/// first node, by its number, whose dependencies are placed.
pub fn dependency_order(edges: &Vec<Vec<usize>>) -> (order: Vec<usize>)
    requires
        edges_in_range(edges@),
    ensures
        is_schedule(order@, edges@),
        forall|i: usize| i < edges.len() ==> (order@.contains(i) <==> orderable(edges@, i)),
{
    let n = edges.len();
    let mut placed: Vec<bool> = Vec::new();
    let mut c: usize = 0;
    while c < n
        invariant
            c <= n,
            placed.len() == c,
            forall|i: int| 0 <= i < c ==> !placed@[i],
        decreases n - c,
    {
        placed.push(false);
        c = c + 1;
    }
    let mut order: Vec<usize> = Vec::new();
    loop
        invariant
            n == edges.len(),
            placed.len() == n,
            edges_in_range(edges@),
            is_schedule(order@, edges@),
            forall|i: int| 0 <= i < n ==> (placed@[i] <==> order@.contains(i as usize)),
        ensures
            n == edges.len(),
            placed.len() == n,
            is_schedule(order@, edges@),
            forall|i: int| 0 <= i < n ==> (placed@[i] <==> order@.contains(i as usize)),
            forall|i: int|
                0 <= i < n && !placed@[i] ==> exists|e: int|
                    0 <= e < edges@[i]@.len() && edges@[i]@[e] < n && !placed@[(
                    #[trigger] edges@[i]@[e]) as int],
        decreases unset(placed@),
    {
        let mut found: Option<usize> = None;
        let mut i: usize = 0;
        while i < n && found.is_none()
            invariant
                n == edges.len(),
                placed.len() == n,
                edges_in_range(edges@),
                i <= n,
                forall|x: int|
                    0 <= x < i && found is None && !placed@[x] ==> exists|e: int|
                        0 <= e < edges@[x]@.len() && edges@[x]@[e] < n && !placed@[(
                        #[trigger] edges@[x]@[e]) as int],
                found matches Some(f) ==> f < n && !placed@[f as int] && forall|e: int|
                    0 <= e < edges@[f as int]@.len() ==> placed@[(
                    #[trigger] edges@[f as int]@[e]) as int],
            decreases n - i,
        {
            if !placed[i] && dependencies_placed(edges, &placed, i) {
                found = Some(i);
            }
            i = i + 1;
        }
        match found {
            None => {
                break ;
            },
            Some(f) => {
                let ghost before = order@;
                let ghost flags = placed@;
                proof {
                    lemma_unset_update(placed@, f as int);
                }
                placed.set(f, true);
                order.push(f);
                proof {
                    assert forall|k: int, l: int| 0 <= k < l < order@.len() implies order@[k]
                        != order@[l] by {
                    }
                    assert forall|k: int, e: int|
                        0 <= k < order@.len() && 0 <= e < edges@[order@[k] as int]@.len() implies placed_before(
                        order@,
                        k,
                        #[trigger] edges@[order@[k] as int]@[e],
                    ) by {
                        let d = edges@[order@[k] as int]@[e];
                        if k < before.len() {
                            let j = choose|j: int| 0 <= j < k && before[j] == d;
                            assert(order@[j] == d);
                        } else {
                            let j = choose|j: int| 0 <= j < before.len() && before[j] == d;
                            assert(order@[j] == d);
                        }
                    }
                    assert forall|x: int| 0 <= x < n implies (placed@[x] <==> order@.contains(
                        x as usize,
                    )) by {
                        if x == f {
                            assert(order@[before.len() as int] == f);
                        } else {
                            if flags[x] {
                                let j = choose|j: int|
                                    0 <= j < before.len() && before[j] == x as usize;
                                assert(order@[j] == x as usize);
                            }
                            if order@.contains(x as usize) {
                                let j = choose|j: int|
                                    0 <= j < order@.len() && order@[j] == x as usize;
                            }
                        }
                    }
                }
            },
        }
    }
    proof {
        assert forall|i: usize| i < edges.len() implies (order@.contains(i) <==> orderable(
            edges@,
            i,
        )) by {
            if orderable(edges@, i) {
                let w = choose|w: Seq<usize>| is_schedule(w, edges@) && w.contains(i);
                let k = choose|k: int| 0 <= k < w.len() && w[k] == i;
                lemma_stuck(w, edges@, placed@, k);
            }
        }
    }
    order
}

} // verus!
