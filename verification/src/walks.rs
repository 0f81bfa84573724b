//! Walks in directed graphs given by adjacency lists.

use vstd::prelude::*;

verus! {

/// There is an edge from one place to another.
pub open spec fn linked(adj: Seq<Vec<usize>>, from: int, to: int) -> bool {
    0 <= from < adj.len() && exists|k: int| 0 <= k < adj[from]@.len() && #[trigger] adj[from]@[k] == to
}

/// Every edge leads to a place of the graph.
pub open spec fn closed_adjacency(adj: Seq<Vec<usize>>) -> bool {
    forall|i: int, k: int|
        0 <= i < adj.len() && 0 <= k < adj[i]@.len() ==> #[trigger] adj[i]@[k] < adj.len()
}

/// A sequence of places, each linked to the next.
pub open spec fn is_walk(adj: Seq<Vec<usize>>, p: Seq<int>) -> bool {
    &&& p.len() > 0
    &&& forall|k: int| 0 <= k < p.len() ==> 0 <= #[trigger] p[k] < adj.len()
    &&& forall|k: int| 0 < k < p.len() ==> linked(adj, p[k - 1], #[trigger] p[k])
}

/// A walk leads from one of the starts to the place.
pub open spec fn reached(adj: Seq<Vec<usize>>, starts: Seq<usize>, to: int) -> bool {
    exists|p: Seq<int>| #[trigger] is_walk(adj, p) && starts.contains(p[0] as usize) && p.last() == to
}

/// A walk leads from the place to one of the goals.
pub open spec fn reaches(adj: Seq<Vec<usize>>, from: int, goals: Seq<bool>) -> bool {
    exists|p: Seq<int>| #[trigger] is_walk(adj, p) && p[0] == from && goals[p.last()]
}

/// The walk visits some place twice.
pub open spec fn repeats(p: Seq<int>) -> bool {
    exists|a: int, b: int| 0 <= a < b < p.len() && #[trigger] p[a] == #[trigger] p[b]
}

/// A walk that runs through a cycle ends at the place.
pub open spec fn after_cycle(adj: Seq<Vec<usize>>, to: int) -> bool {
    exists|p: Seq<int>| #[trigger] is_walk(adj, p) && p.last() == to && repeats(p)
}

/// A walk of this many places ends at the place.
pub open spec fn walk_of_length(adj: Seq<Vec<usize>>, to: int, length: nat) -> bool {
    exists|p: Seq<int>| #[trigger] is_walk(adj, p) && p.last() == to && p.len() == length
}

proof fn walk_of_one(adj: Seq<Vec<usize>>, at: int)
    requires
        0 <= at < adj.len(),
    ensures
        is_walk(adj, seq![at]),
{
}

proof fn walk_extends(adj: Seq<Vec<usize>>, p: Seq<int>, to: int)
    requires
        is_walk(adj, p),
        linked(adj, p.last(), to),
        closed_adjacency(adj),
    ensures
        is_walk(adj, p.push(to)),
        0 <= to < adj.len(),
{
    let q = p.push(to);
    let from = p.last();
    let k = choose|k: int| 0 <= k < adj[from]@.len() && #[trigger] adj[from]@[k] == to;
    assert(adj[from]@[k] < adj.len());
    assert forall|k: int| 0 < k < q.len() implies linked(adj, q[k - 1], #[trigger] q[k]) by {
        if k < p.len() {
            assert(p[k] == q[k]);
        }
    }
}

proof fn walk_grows_at_front(adj: Seq<Vec<usize>>, from: int, p: Seq<int>)
    requires
        is_walk(adj, p),
        linked(adj, from, p[0]),
    ensures
        is_walk(adj, seq![from] + p),
{
    let q = seq![from] + p;
    assert forall|k: int| 0 <= k < q.len() implies 0 <= #[trigger] q[k] < adj.len() by {
        if k > 0 {
            assert(q[k] == p[k - 1]);
        }
    }
    assert forall|k: int| 0 < k < q.len() implies linked(adj, q[k - 1], #[trigger] q[k]) by {
        assert(q[k] == p[k - 1]);
        if k > 1 {
            assert(q[k - 1] == p[k - 2]);
        }
    }
}

proof fn walk_prefix(adj: Seq<Vec<usize>>, p: Seq<int>, n: int)
    requires
        is_walk(adj, p),
        0 < n <= p.len(),
    ensures
        is_walk(adj, p.take(n)),
        p.take(n).last() == p[n - 1],
{
    let q = p.take(n);
    assert forall|k: int| 0 < k < q.len() implies linked(adj, q[k - 1], #[trigger] q[k]) by {
        assert(q[k] == p[k]);
    }
}

// ---------------------------------------------------------------------------
// Forward reachability
// ---------------------------------------------------------------------------

spec fn unmarked(marks: Seq<bool>) -> nat
    decreases marks.len(),
{
    if marks.len() == 0 {
        0
    } else {
        unmarked(marks.drop_last()) + if marks.last() {
            0nat
        } else {
            1nat
        }
    }
}

proof fn unmarked_update(marks: Seq<bool>, i: int)
    requires
        0 <= i < marks.len(),
        !marks[i],
    ensures
        unmarked(marks.update(i, true)) + 1 == unmarked(marks),
    decreases marks.len(),
{
    let more = marks.update(i, true);
    if i == marks.len() - 1 {
        assert(more.drop_last() =~= marks.drop_last());
    } else {
        assert(more.drop_last() =~= marks.drop_last().update(i, true));
        unmarked_update(marks.drop_last(), i);
    }
}

/// A marked place whose neighbours are all marked.
spec fn expanded(adj: Seq<Vec<usize>>, marks: Seq<bool>, i: int) -> bool {
    forall|k: int| 0 <= k < adj[i]@.len() ==> marks[#[trigger] adj[i]@[k] as int]
}

proof fn marks_cover(adj: Seq<Vec<usize>>, starts: Seq<usize>, marks: Seq<bool>, p: Seq<int>)
    requires
        marks.len() == adj.len(),
        closed_adjacency(adj),
        forall|i: int| 0 <= i < marks.len() && marks[i] ==> #[trigger] expanded(adj, marks, i),
        forall|k: int| 0 <= k < starts.len() ==> marks[#[trigger] starts[k] as int],
        is_walk(adj, p),
        adj.len() <= usize::MAX,
        starts.contains(p[0] as usize),
    ensures
        marks[p.last()],
    decreases p.len(),
{
    if p.len() == 1 {
        assert(0 <= p[0] < adj.len());
        let k = choose|k: int| 0 <= k < starts.len() && starts[k] == p[0] as usize;
        assert(marks[starts[k] as int]);
    } else {
        let n = p.len() - 1;
        walk_prefix(adj, p, n);
        let q = p.take(n);
        marks_cover(adj, starts, marks, q);
        assert(linked(adj, p[n - 1], p[n]));
        assert(expanded(adj, marks, p[n - 1]));
    }
}

/// Marks the places that walks from the starts reach.
pub(crate) fn mark_reached(adj: &Vec<Vec<usize>>, starts: &Vec<usize>) -> (r: Vec<bool>)
    requires
        closed_adjacency(adj@),
        forall|k: int| 0 <= k < starts@.len() ==> #[trigger] starts@[k] < adj@.len(),
    ensures
        r@.len() == adj@.len(),
        forall|i: int| 0 <= i < adj@.len() ==> #[trigger] r@[i] == reached(adj@, starts@, i),
{
    let n: usize = adj.len();
    let mut marks: Vec<bool> = Vec::new();
    while marks.len() < n
        invariant
            n == adj@.len(),
            marks@.len() <= n,
            forall|i: int| 0 <= i < marks@.len() ==> !#[trigger] marks@[i],
        decreases n - marks@.len(),
    {
        marks.push(false);
    }
    let mut queue: Vec<usize> = Vec::new();
    let mut s: usize = 0;
    while s < starts.len()
        invariant
            closed_adjacency(adj@),
            n == adj@.len(),
            s <= starts@.len(),
            marks@.len() == n,
            forall|k: int| 0 <= k < starts@.len() ==> #[trigger] starts@[k] < adj@.len(),
            forall|i: int| 0 <= i < n && #[trigger] marks@[i] ==> reached(adj@, starts@, i),
            forall|i: int| 0 <= i < n && #[trigger] marks@[i] ==> queue@.contains(i as usize),
            forall|k: int| 0 <= k < queue@.len() ==> #[trigger] queue@[k] < n && marks@[queue@[k] as int],
            forall|k: int| 0 <= k < s ==> marks@[#[trigger] starts@[k] as int],
        decreases starts@.len() - s,
    {
        let start: usize = starts[s];
        assert(starts@[s as int] < adj@.len());
        if !marks[start] {
            proof {
                walk_of_one(adj@, start as int);
                assert(seq![start as int].last() == start as int);
                assert(starts@.contains(start));
                assert(reached(adj@, starts@, start as int));
            }
            let ghost before = queue@;
            let ghost marked = marks@;
            marks.set(start, true);
            queue.push(start);
            proof {
                assert(queue@[before.len() as int] == start);
                assert forall|i: int| 0 <= i < n && #[trigger] marks@[i] implies queue@.contains(
                    i as usize,
                ) by {
                    if i != start {
                        assert(marked[i]);
                        let k = choose|k: int| 0 <= k < before.len() && before[k] == i as usize;
                        assert(queue@[k] == i as usize);
                    }
                }
            }
        }
        s = s + 1;
    }
    let mut head: usize = 0;
    while head < queue.len()
        invariant
            closed_adjacency(adj@),
            n == adj@.len(),
            head <= queue@.len(),
            marks@.len() == n,
            forall|i: int| 0 <= i < n && #[trigger] marks@[i] ==> reached(adj@, starts@, i),
            forall|k: int| 0 <= k < queue@.len() ==> #[trigger] queue@[k] < n && marks@[queue@[k] as int],
            forall|k: int|
                0 <= k < starts@.len() ==> #[trigger] starts@[k] < n && marks@[starts@[k] as int],
            forall|i: int|
                0 <= i < n && #[trigger] marks@[i] ==> expanded(adj@, marks@, i) || exists|k: int|
                    head <= k < queue@.len() && #[trigger] queue@[k] == i,
        decreases unmarked(marks@) + queue@.len() - head,
    {
        let at: usize = queue[head];
        let mut k: usize = 0;
        let ghost budget = unmarked(marks@) + queue@.len() - head;
        while k < adj[at as usize].len()
            invariant
                closed_adjacency(adj@),
                n == adj@.len(),
                at < n,
                k <= adj@[at as int]@.len(),
                head < queue@.len(),
                queue@[head as int] == at,
                marks@.len() == n,
                unmarked(marks@) + queue@.len() - head == budget,
                forall|i: int| 0 <= i < n && #[trigger] marks@[i] ==> reached(adj@, starts@, i),
                forall|k: int| 0 <= k < queue@.len() ==> #[trigger] queue@[k] < n && marks@[queue@[k] as int],
                forall|k: int|
                    0 <= k < starts@.len() ==> #[trigger] starts@[k] < n && marks@[starts@[k] as int],
                forall|j: int| 0 <= j < k ==> marks@[#[trigger] adj@[at as int]@[j] as int],
                forall|i: int|
                    0 <= i < n && #[trigger] marks@[i] ==> expanded(adj@, marks@, i) || exists|k: int|
                        head <= k < queue@.len() && #[trigger] queue@[k] == i,
            decreases adj@[at as int]@.len() - k,
        {
            let next: usize = adj[at][k];
            assert(adj@[at as int]@[k as int] < adj@.len());
            if !marks[next] {
                let ghost marked = marks@;
                let ghost before = queue@;
                proof {
                    assert(marks@[at as int]);
                    let p = choose|p: Seq<int>| #[trigger]
                        is_walk(adj@, p) && starts@.contains(p[0] as usize) && p.last() == at;
                    assert(linked(adj@, at as int, next as int));
                    walk_extends(adj@, p, next as int);
                    let q = p.push(next as int);
                    assert(q[0] == p[0] && q.last() == next as int);
                    assert(reached(adj@, starts@, next as int));
                    unmarked_update(marks@, next as int);
                }
                marks.set(next, true);
                queue.push(next);
                proof {
                    assert(marks@ == marked.update(next as int, true));
                    assert forall|i: int| 0 <= i < n && #[trigger] marks@[i] implies expanded(
                        adj@,
                        marks@,
                        i,
                    ) || exists|k: int| head <= k < queue@.len() && #[trigger] queue@[k] == i by {
                        if i == next {
                            assert(queue@[before.len() as int] == i);
                        } else {
                            assert(marked[i]);
                            if expanded(adj@, marked, i) {
                                assert(expanded(adj@, marks@, i));
                            } else {
                                let k = choose|k: int|
                                    head <= k < before.len() && #[trigger] before[k] == i;
                                assert(queue@[k] == i);
                            }
                        }
                    }
                }
            }
            k = k + 1;
        }
        proof {
            assert(expanded(adj@, marks@, at as int));
            assert forall|i: int| 0 <= i < n && #[trigger] marks@[i] implies expanded(
                adj@,
                marks@,
                i,
            ) || exists|k: int| head + 1 <= k < queue@.len() && #[trigger] queue@[k] == i by {
                if !expanded(adj@, marks@, i) {
                    let k = choose|k: int| head <= k < queue@.len() && #[trigger] queue@[k] == i;
                    assert(k != head);
                }
            }
        }
        head = head + 1;
    }
    proof {
        assert forall|i: int| 0 <= i < adj@.len() implies #[trigger] marks@[i] == reached(
            adj@,
            starts@,
            i,
        ) by {
            if reached(adj@, starts@, i) {
                let p = choose|p: Seq<int>| #[trigger]
                    is_walk(adj@, p) && starts@.contains(p[0] as usize) && p.last() == i;
                marks_cover(adj@, starts@, marks@, p);
            }
        }
    }
    marks
}

// ---------------------------------------------------------------------------
// Backward reachability
// ---------------------------------------------------------------------------

proof fn marks_hold_back(adj: Seq<Vec<usize>>, goals: Seq<bool>, marks: Seq<bool>, p: Seq<int>)
    requires
        marks.len() == adj.len() == goals.len(),
        forall|i: int| 0 <= i < goals.len() && goals[i] ==> #[trigger] marks[i],
        forall|i: int, k: int|
            0 <= i < adj.len() && 0 <= k < adj[i]@.len() && marks[#[trigger] adj[i]@[k] as int]
                ==> marks[i],
        is_walk(adj, p),
        goals[p.last()],
    ensures
        marks[p[0]],
    decreases p.len(),
{
    if p.len() > 1 {
        let q = p.drop_first();
        assert(is_walk(adj, q)) by {
            assert forall|k: int| 0 <= k < q.len() implies 0 <= #[trigger] q[k] < adj.len() by {
                assert(q[k] == p[k + 1]);
            }
            assert forall|k: int| 0 < k < q.len() implies linked(
                adj,
                q[k - 1],
                #[trigger] q[k],
            ) by {
                assert(q[k] == p[k + 1] && q[k - 1] == p[k]);
            }
        }
        assert(q.last() == p.last());
        marks_hold_back(adj, goals, marks, q);
        assert(q[0] == p[1]);
        assert(linked(adj, p[0], p[1]));
    } else {
        assert(0 <= p[0] < adj.len());
    }
}

/// Tests whether an edge of the place leads to a marked place.
fn leads_to_marked(adj: &Vec<Vec<usize>>, at: usize, marks: &Vec<bool>) -> (r: bool)
    requires
        closed_adjacency(adj@),
        at < adj@.len(),
        marks@.len() == adj@.len(),
    ensures
        r == exists|k: int| 0 <= k < adj@[at as int]@.len() && marks@[#[trigger] adj@[at as int]@[k] as int],
{
    let mut k: usize = 0;
    while k < adj[at].len()
        invariant
            closed_adjacency(adj@),
            at < adj@.len(),
            marks@.len() == adj@.len(),
            k <= adj@[at as int]@.len(),
            forall|j: int| 0 <= j < k ==> !marks@[#[trigger] adj@[at as int]@[j] as int],
        decreases adj@[at as int]@.len() - k,
    {
        assert(adj@[at as int]@[k as int] < adj@.len());
        if marks[adj[at][k]] {
            return true;
        }
        k = k + 1;
    }
    false
}

/// Marks the places from which walks reach a goal.
pub(crate) fn mark_reaching(adj: &Vec<Vec<usize>>, goals: &Vec<bool>) -> (r: Vec<bool>)
    requires
        closed_adjacency(adj@),
        goals@.len() == adj@.len(),
    ensures
        r@.len() == adj@.len(),
        forall|i: int| 0 <= i < adj@.len() ==> #[trigger] r@[i] == reaches(adj@, i, goals@),
{
    let n: usize = adj.len();
    let mut marks: Vec<bool> = Vec::new();
    while marks.len() < n
        invariant
            n == adj@.len() == goals@.len(),
            marks@.len() <= n,
            forall|i: int| 0 <= i < marks@.len() ==> #[trigger] marks@[i] == goals@[i],
        decreases n - marks@.len(),
    {
        let i: usize = marks.len();
        marks.push(goals[i]);
    }
    proof {
        assert forall|i: int| 0 <= i < n && #[trigger] marks@[i] implies reaches(
            adj@,
            i,
            goals@,
        ) by {
            walk_of_one(adj@, i);
            assert(seq![i].last() == i);
        }
    }
    let mut changed: bool = true;
    while changed
        invariant
            closed_adjacency(adj@),
            n == adj@.len() == goals@.len(),
            marks@.len() == n,
            forall|i: int| 0 <= i < n && goals@[i] ==> #[trigger] marks@[i],
            forall|i: int| 0 <= i < n && #[trigger] marks@[i] ==> reaches(adj@, i, goals@),
            !changed ==> forall|i: int, k: int|
                0 <= i < n && 0 <= k < adj@[i]@.len() && marks@[#[trigger] adj@[i]@[k] as int]
                    ==> marks@[i],
        decreases unmarked(marks@) + if changed { 1nat } else { 0nat },
    {
        changed = false;
        let ghost start = marks@;
        let mut i: usize = 0;
        while i < n
            invariant
                closed_adjacency(adj@),
                n == adj@.len() == goals@.len(),
                marks@.len() == n,
                i <= n,
                start.len() == n,
                forall|j: int| 0 <= j < n && goals@[j] ==> #[trigger] marks@[j],
                forall|j: int| 0 <= j < n && #[trigger] marks@[j] ==> reaches(adj@, j, goals@),
                changed ==> unmarked(marks@) < unmarked(start),
                !changed ==> marks@ == start,
                !changed ==> forall|j: int, k: int|
                    0 <= j < i && 0 <= k < adj@[j]@.len() && marks@[#[trigger] adj@[j]@[k] as int]
                        ==> marks@[j],
            decreases n - i,
        {
            if !marks[i] {
                if leads_to_marked(adj, i, &marks) {
                    proof {
                        let k = choose|k: int|
                            0 <= k < adj@[i as int]@.len() && marks@[#[trigger] adj@[i as int]@[k] as int];
                        let next = adj@[i as int]@[k] as int;
                        assert(adj@[i as int]@[k] < adj@.len());
                        assert(reaches(adj@, next, goals@));
                        let p = choose|p: Seq<int>| #[trigger]
                            is_walk(adj@, p) && p[0] == next && goals@[p.last()];
                        assert(linked(adj@, i as int, next));
                        walk_grows_at_front(adj@, i as int, p);
                        let q = seq![i as int] + p;
                        assert(q[0] == i as int && q.last() == p.last());
                        assert(reaches(adj@, i as int, goals@));
                        unmarked_update(marks@, i as int);
                    }
                    marks.set(i, true);
                    changed = true;
                }
            }
            i = i + 1;
        }
    }
    proof {
        assert forall|i: int| 0 <= i < adj@.len() implies #[trigger] marks@[i] == reaches(
            adj@,
            i,
            goals@,
        ) by {
            if reaches(adj@, i, goals@) {
                let p = choose|p: Seq<int>| #[trigger]
                    is_walk(adj@, p) && p[0] == i && goals@[p.last()];
                marks_hold_back(adj@, goals@, marks@, p);
            }
        }
    }
    marks
}

// ---------------------------------------------------------------------------
// Depth
// ---------------------------------------------------------------------------

/// The places from which every edge into a settled place comes are settled
/// before it.
spec fn settled_below(adj: Seq<Vec<usize>>, depths: Seq<usize>) -> bool {
    forall|i: int, j: int|
        #![trigger linked(adj, i, j)]
        linked(adj, i, j) && 0 <= j < depths.len() && depths[j] > 0 ==> 0 < depths[i] < depths[j]
}

proof fn depths_increase(adj: Seq<Vec<usize>>, depths: Seq<usize>, p: Seq<int>, a: int, b: int)
    requires
        depths.len() == adj.len(),
        settled_below(adj, depths),
        is_walk(adj, p),
        0 <= a < b < p.len(),
        depths[p[b]] > 0,
    ensures
        0 < depths[p[a]] < depths[p[b]],
    decreases b - a,
{
    assert(linked(adj, p[b - 1], p[b]));
    if a < b - 1 {
        depths_increase(adj, depths, p, a, b - 1);
    }
}

proof fn settled_walk_is_simple(adj: Seq<Vec<usize>>, depths: Seq<usize>, p: Seq<int>)
    requires
        depths.len() == adj.len(),
        settled_below(adj, depths),
        is_walk(adj, p),
        depths[p.last()] > 0,
    ensures
        !repeats(p),
{
    if repeats(p) {
        let (a, b) = choose|a: int, b: int|
            0 <= a < b < p.len() && #[trigger] p[a] == #[trigger] p[b];
        let last = p.len() - 1;
        if b < last {
            depths_increase(adj, depths, p, b, last);
        }
        depths_increase(adj, depths, p, a, b);
    }
}

#[verifier::spinoff_prover]
proof fn settled_walk_bound(adj: Seq<Vec<usize>>, depths: Seq<usize>, p: Seq<int>)
    requires
        depths.len() == adj.len(),
        settled_below(adj, depths),
        is_walk(adj, p),
        depths[p.last()] > 0,
    ensures
        p.len() <= depths[p.last()],
        !repeats(p),
    decreases p.len(),
{
    settled_walk_is_simple(adj, depths, p);
    let n = p.len() - 1;
    if n > 0 {
        walk_prefix(adj, p, n);
        depths_increase(adj, depths, p, n - 1, n);
        let front = p.take(n);
        assert(front.last() == p[n - 1]);
        settled_walk_bound(adj, depths, front);
    }
}

/// Some edge from an unsettled place leads to the place.
spec fn blocked(adj: Seq<Vec<usize>>, depths: Seq<usize>, to: int) -> bool {
    exists|i: int| 0 <= i < adj.len() && depths[i] == 0 && #[trigger] linked(adj, i, to)
}

/// Marks the places to which edges from unsettled places lead.
fn mark_blocked(adj: &Vec<Vec<usize>>, depths: &Vec<usize>) -> (r: Vec<bool>)
    requires
        closed_adjacency(adj@),
        depths@.len() == adj@.len(),
    ensures
        r@.len() == adj@.len(),
        forall|j: int| 0 <= j < adj@.len() ==> #[trigger] r@[j] == blocked(adj@, depths@, j),
{
    let n: usize = adj.len();
    let mut marks: Vec<bool> = Vec::new();
    while marks.len() < n
        invariant
            n == adj@.len(),
            marks@.len() <= n,
            forall|i: int| 0 <= i < marks@.len() ==> !#[trigger] marks@[i],
        decreases n - marks@.len(),
    {
        marks.push(false);
    }
    let mut i: usize = 0;
    while i < n
        invariant
            closed_adjacency(adj@),
            n == adj@.len() == depths@.len(),
            i <= n,
            marks@.len() == n,
            forall|j: int| 0 <= j < n && #[trigger] marks@[j] ==> blocked(adj@, depths@, j),
            forall|a: int, j: int|
                0 <= a < i && depths@[a] == 0 && #[trigger] linked(adj@, a, j) ==> marks@[j],
        decreases n - i,
    {
        if depths[i] == 0 {
            let mut k: usize = 0;
            while k < adj[i].len()
                invariant
                    closed_adjacency(adj@),
                    n == adj@.len() == depths@.len(),
                    i < n,
                    depths@[i as int] == 0,
                    k <= adj@[i as int]@.len(),
                    marks@.len() == n,
                    forall|j: int| 0 <= j < n && #[trigger] marks@[j] ==> blocked(adj@, depths@, j),
                    forall|a: int, j: int|
                        0 <= a < i && depths@[a] == 0 && #[trigger] linked(adj@, a, j) ==> marks@[j],
                    forall|m: int| 0 <= m < k ==> marks@[#[trigger] adj@[i as int]@[m] as int],
                decreases adj@[i as int]@.len() - k,
            {
                let next: usize = adj[i][k];
                assert(adj@[i as int]@[k as int] < adj@.len());
                assert(linked(adj@, i as int, next as int));
                marks.set(next, true);
                k = k + 1;
            }
        }
        i = i + 1;
    }
    marks
}

spec fn unsettled(depths: Seq<usize>) -> nat
    decreases depths.len(),
{
    if depths.len() == 0 {
        0
    } else {
        unsettled(depths.drop_last()) + if depths.last() == 0 {
            1nat
        } else {
            0nat
        }
    }
}

proof fn unsettled_update(depths: Seq<usize>, i: int, depth: usize)
    requires
        0 <= i < depths.len(),
        depths[i] == 0,
        depth > 0,
    ensures
        unsettled(depths.update(i, depth)) + 1 == unsettled(depths),
    decreases depths.len(),
{
    let more = depths.update(i, depth);
    if i == depths.len() - 1 {
        assert(more.drop_last() =~= depths.drop_last());
    } else {
        assert(more.drop_last() =~= depths.drop_last().update(i, depth));
        unsettled_update(depths.drop_last(), i, depth);
    }
}

proof fn unsettled_bound(depths: Seq<usize>)
    ensures
        unsettled(depths) <= depths.len(),
    decreases depths.len(),
{
    if depths.len() > 0 {
        unsettled_bound(depths.drop_last());
    }
}

/// Where every unsettled place is blocked, arbitrarily long walks over
/// unsettled places end at each of them.
proof fn unsettled_walk(adj: Seq<Vec<usize>>, depths: Seq<usize>, to: int, length: nat) -> (p: Seq<int>)
    requires
        depths.len() == adj.len(),
        closed_adjacency(adj),
        forall|i: int|
            0 <= i < adj.len() && #[trigger] depths[i] == 0 ==> blocked(adj, depths, i),
        0 <= to < adj.len(),
        depths[to] == 0,
        length > 0,
    ensures
        is_walk(adj, p),
        p.len() == length,
        p.last() == to,
    decreases length,
{
    if length == 1 {
        walk_of_one(adj, to);
        seq![to]
    } else {
        assert(blocked(adj, depths, to));
        let from = choose|i: int|
            0 <= i < adj.len() && depths[i] == 0 && #[trigger] linked(adj, i, to);
        let q = unsettled_walk(adj, depths, from, (length - 1) as nat);
        walk_extends(adj, q, to);
        q.push(to)
    }
}

proof fn long_walk_repeats(adj: Seq<Vec<usize>>, p: Seq<int>)
    requires
        is_walk(adj, p),
        p.len() > adj.len(),
    ensures
        repeats(p),
{
    if !repeats(p) {
        assert(p.no_duplicates()) by {
            assert forall|a: int, b: int|
                0 <= a < p.len() && 0 <= b < p.len() && a != b implies p[a] != p[b] by {
                if a < b {
                    assert(!(p[a] == p[b]));
                } else {
                    assert(!(p[b] == p[a]));
                }
            }
        }
        p.unique_seq_to_set();
        let places = vstd::set_lib::set_int_range(0, adj.len() as int);
        vstd::set_lib::lemma_int_range(0, adj.len() as int);
        assert(p.to_set().subset_of(places)) by {
            assert forall|x: int| p.to_set().contains(x) implies places.contains(x) by {
                let k = choose|k: int| 0 <= k < p.len() && p[k] == x;
                assert(0 <= p[k] < adj.len());
            }
        }
        vstd::set_lib::lemma_len_subset(p.to_set(), places);
    }
}

/// Settles one place after another and notes how many places the longest walk
/// to each has. A place that a cycle precedes is never settled; its depth is 0.
pub(crate) fn settle(adj: &Vec<Vec<usize>>) -> (r: Vec<usize>)
    requires
        closed_adjacency(adj@),
        adj@.len() < usize::MAX - 1,
    ensures
        r@.len() == adj@.len(),
        forall|i: int| 0 <= i < adj@.len() ==> (#[trigger] r@[i] == 0 <==> after_cycle(adj@, i)),
        forall|i: int|
            0 <= i < adj@.len() && #[trigger] r@[i] > 0 ==> walk_of_length(adj@, i, r@[i] as nat),
        forall|p: Seq<int>|
            #![trigger is_walk(adj@, p)]
            is_walk(adj@, p) && r@[p.last()] > 0 ==> p.len() <= r@[p.last()],
{
    let n: usize = adj.len();
    let mut depths: Vec<usize> = Vec::new();
    while depths.len() < n
        invariant
            n == adj@.len(),
            depths@.len() <= n,
            forall|i: int| 0 <= i < depths@.len() ==> #[trigger] depths@[i] == 0,
        decreases n - depths@.len(),
    {
        depths.push(0);
    }
    let mut round: usize = 1;
    let mut progress: bool = true;
    proof {
        unsettled_bound(depths@);
        assert forall|i: int| 0 <= i < n && #[trigger] depths@[i] == 0 implies walk_of_length(
            adj@,
            i,
            1,
        ) by {
            walk_of_one(adj@, i);
            assert(seq![i].last() == i);
        }
        assert(settled_below(adj@, depths@)) by {
            assert forall|i: int, j: int|
                #![trigger linked(adj@, i, j)]
                linked(adj@, i, j) && 0 <= j < depths@.len() && depths@[j] > 0 implies 0
                < depths@[i] < depths@[j] by {
                assert(depths@[j] == 0);
            }
        }
    }
    while progress
        invariant
            closed_adjacency(adj@),
            n == adj@.len() == depths@.len(),
            n < usize::MAX - 1,
            1 <= round,
            progress ==> round - 1 + unsettled(depths@) <= n,
            forall|i: int| 0 <= i < n ==> #[trigger] depths@[i] < round,
            settled_below(adj@, depths@),
            forall|i: int|
                0 <= i < n && #[trigger] depths@[i] > 0 ==> walk_of_length(adj@, i, depths@[i] as nat),
            progress ==> forall|i: int|
                0 <= i < n && #[trigger] depths@[i] == 0 ==> walk_of_length(adj@, i, round as nat),
            !progress ==> forall|i: int|
                0 <= i < n && #[trigger] depths@[i] == 0 ==> blocked(adj@, depths@, i),
        decreases unsettled(depths@) + if progress { 1nat } else { 0nat },
    {
        let marks = mark_blocked(adj, &depths);
        let ghost start = depths@;
        progress = false;
        let mut i: usize = 0;
        while i < n
            invariant
                closed_adjacency(adj@),
                n == adj@.len() == depths@.len() == start.len() == marks@.len(),
                i <= n,
                1 <= round < usize::MAX,
                forall|j: int| 0 <= j < n ==> #[trigger] start[j] < round,
                forall|j: int| 0 <= j < n ==> #[trigger] marks@[j] == blocked(adj@, start, j),
                forall|j: int|
                    0 <= j < i ==> #[trigger] depths@[j] == (if start[j] == 0 && !marks@[j] {
                        round
                    } else {
                        start[j]
                    }),
                forall|j: int| i <= j < n ==> #[trigger] depths@[j] == start[j],
                progress ==> unsettled(depths@) < unsettled(start),
                !progress ==> depths@ == start,
            decreases n - i,
        {
            if depths[i] == 0 && !marks[i] {
                proof {
                    unsettled_update(depths@, i as int, round);
                }
                depths.set(i, round);
                progress = true;
            }
            i = i + 1;
        }
        proof {
            assert(settled_below(adj@, depths@)) by {
                assert forall|a: int, j: int|
                    #![trigger linked(adj@, a, j)]
                    linked(adj@, a, j) && 0 <= j < depths@.len() && depths@[j] > 0 implies 0
                    < depths@[a] < depths@[j] by {
                    if start[j] == 0 {
                        assert(!blocked(adj@, start, j));
                        assert(start[a] > 0);
                    }
                    assert(depths@[a] == start[a]);
                }
            }
            assert forall|j: int| 0 <= j < n && #[trigger] depths@[j] == 0 implies walk_of_length(
                adj@,
                j,
                (round + 1) as nat,
            ) by {
                assert(marks@[j]);
                assert(blocked(adj@, start, j));
                let a = choose|a: int|
                    0 <= a < adj@.len() && start[a] == 0 && #[trigger] linked(adj@, a, j);
                assert(walk_of_length(adj@, a, round as nat));
                let p = choose|p: Seq<int>| #[trigger]
                    is_walk(adj@, p) && p.last() == a && p.len() == round as nat;
                walk_extends(adj@, p, j);
                assert(p.push(j).last() == j);
            }
            if !progress {
                assert forall|j: int| 0 <= j < n && #[trigger] depths@[j] == 0 implies blocked(
                    adj@,
                    depths@,
                    j,
                ) by {
                    assert(marks@[j]);
                }
            }
        }
        round = round + 1;
    }
    proof {
        assert forall|p: Seq<int>|
            #![trigger is_walk(adj@, p)]
            is_walk(adj@, p) && depths@[p.last()] > 0 implies p.len() <= depths@[p.last()] by {
            settled_walk_bound(adj@, depths@, p);
        }
        assert forall|i: int| 0 <= i < adj@.len() implies (#[trigger] depths@[i] == 0
            <==> after_cycle(adj@, i)) by {
            if depths@[i] == 0 {
                let p = unsettled_walk(adj@, depths@, i, (n + 1) as nat);
                long_walk_repeats(adj@, p);
            }
            if after_cycle(adj@, i) && depths@[i] > 0 {
                let p = choose|p: Seq<int>| #[trigger]
                    is_walk(adj@, p) && p.last() == i && repeats(p);
                settled_walk_bound(adj@, depths@, p);
            }
        }
    }
    depths
}

} // verus!
