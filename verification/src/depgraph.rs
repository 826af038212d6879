//! Ordering of the nodes of a dependency graph so that every node comes after
//! the nodes it depends on (Kahn's algorithm), or evidence of a cycle.
use vstd::prelude::*;
use vstd::set_lib::*;

verus! {

/// A graph on nodes `0..n`: `g[a]` lists, without repetition, the nodes `a` depends on.
pub open spec fn well_formed_graph(g: Seq<Seq<usize>>, n: nat) -> bool {
    &&& g.len() == n
    &&& forall|a: int| 0 <= a < n ==> (#[trigger] g[a]).no_duplicates()
    &&& forall|a: int, i: int| 0 <= a < n && 0 <= i < g[a].len() ==> (#[trigger] g[a][i]) < n
}

/// How many of `deps` are not yet in `done`.
pub open spec fn pending(deps: Seq<usize>, done: Seq<usize>) -> nat
    decreases deps.len(),
{
    if deps.len() == 0 {
        0
    } else {
        pending(deps.drop_last(), done) + (if done.contains(deps.last()) { 0nat } else { 1nat })
    }
}

proof fn lemma_pending_none_done(deps: Seq<usize>, done: Seq<usize>)
    requires
        forall|x: usize| deps.contains(x) ==> !done.contains(x),
    ensures
        pending(deps, done) == deps.len(),
    decreases deps.len(),
{
    if deps.len() > 0 {
        let init = deps.drop_last();
        assert forall|x: usize| init.contains(x) implies !done.contains(x) by {
            let i = choose|i: int| 0 <= i < init.len() && init[i] == x;
            assert(deps[i] == x);
        }
        lemma_pending_none_done(init, done);
        assert(deps.contains(deps.last())) by {
            assert(deps[deps.len() - 1] == deps.last());
        }
    }
}

proof fn lemma_pending_push(deps: Seq<usize>, done: Seq<usize>, m: usize)
    requires
        deps.no_duplicates(),
        !done.contains(m),
    ensures
        pending(deps, done) == pending(deps, done.push(m)) + (if deps.contains(m) { 1nat } else { 0nat }),
    decreases deps.len(),
{
    if deps.len() > 0 {
        let init = deps.drop_last();
        assert(init.no_duplicates()) by {
            assert forall|i: int, j: int| 0 <= i < init.len() && 0 <= j < init.len() && i != j implies init[i] != init[j] by {
                assert(init[i] == deps[i] && init[j] == deps[j]);
            }
        }
        lemma_pending_push(init, done, m);
        let last = deps.last();
        assert(done.push(m).contains(last) == (done.contains(last) || last == m)) by {
            if done.push(m).contains(last) {
                let i = choose|i: int| 0 <= i < done.push(m).len() && done.push(m)[i] == last;
                if i < done.len() {
                    assert(done[i] == last);
                }
            }
            if done.contains(last) {
                let i = choose|i: int| 0 <= i < done.len() && done[i] == last;
                assert(done.push(m)[i] == last);
            }
            if last == m {
                assert(done.push(m)[done.len() as int] == m);
            }
        }
        assert(deps.contains(m) == (init.contains(m) || last == m)) by {
            if deps.contains(m) {
                let i = choose|i: int| 0 <= i < deps.len() && deps[i] == m;
                if i < deps.len() - 1 {
                    assert(init[i] == m);
                }
            }
            if init.contains(m) {
                let i = choose|i: int| 0 <= i < init.len() && init[i] == m;
                assert(deps[i] == m);
            }
            if last == m {
                assert(deps[deps.len() - 1] == m);
            }
        }
        if last == m {
            assert(!init.contains(m)) by {
                if init.contains(m) {
                    let i = choose|i: int| 0 <= i < init.len() && init[i] == m;
                    assert(deps[i] == deps[deps.len() - 1]);
                }
            }
        }
    }
}

proof fn lemma_pending_zero(deps: Seq<usize>, done: Seq<usize>)
    ensures
        (pending(deps, done) == 0) == (forall|x: usize| deps.contains(x) ==> done.contains(x)),
    decreases deps.len(),
{
    if deps.len() > 0 {
        let init = deps.drop_last();
        lemma_pending_zero(init, done);
        if pending(deps, done) == 0 {
            assert forall|x: usize| deps.contains(x) implies done.contains(x) by {
                let i = choose|i: int| 0 <= i < deps.len() && deps[i] == x;
                if i < deps.len() - 1 {
                    assert(init[i] == x);
                }
            }
        } else {
            if pending(init, done) == 0 {
                assert(deps.contains(deps.last())) by {
                    assert(deps[deps.len() - 1] == deps.last());
                }
            } else {
                let x = choose|x: usize| init.contains(x) && !done.contains(x);
                let i = choose|i: int| 0 <= i < init.len() && init[i] == x;
                assert(deps[i] == x);
            }
        }
    }
}

/// Distinct nodes below `n` are at most `n`; exactly `n` of them are all the nodes.
proof fn lemma_distinct_nodes(q: Seq<usize>, n: nat)
    requires
        q.no_duplicates(),
        forall|i: int| 0 <= i < q.len() ==> q[i] < n,
    ensures
        q.len() <= n,
        q.len() == n ==> forall|x: usize| x < n ==> q.contains(x),
{
    let qi = q.map_values(|x: usize| x as int);
    assert(qi.no_duplicates()) by {
        assert forall|i: int, j: int| 0 <= i < qi.len() && 0 <= j < qi.len() && i != j implies qi[i] != qi[j] by {
            assert(q[i] != q[j]);
        }
    }
    qi.unique_seq_to_set();
    let s = qi.to_set();
    let range = set_int_range(0, n as int);
    lemma_int_range(0, n as int);
    assert(s.subset_of(range)) by {
        assert forall|x: int| s.contains(x) implies range.contains(x) by {
            let i = choose|i: int| 0 <= i < qi.len() && qi[i] == x;
            assert(q[i] < n);
        }
    }
    lemma_len_subset(s, range);
    if q.len() == n {
        lemma_subset_equality(s, range);
        assert forall|x: usize| x < n implies q.contains(x) by {
            assert(range.contains(x as int));
            assert(s.contains(x as int));
            let i = choose|i: int| 0 <= i < qi.len() && qi[i] == x as int;
            assert(q[i] == x);
        }
    }
}

/// Kahn's algorithm on `g`, processing ready nodes first-in first-out, the
/// initially ready ones in increasing order. The result lists nodes without
/// repetition, each after every node it depends on. When it holds fewer than
/// `n` nodes, every node left out depends on another node left out.
pub fn kahn_order(deps: &Vec<Vec<usize>>, n: usize) -> (r: Vec<usize>)
    requires
        well_formed_graph(deps@.map_values(|v: Vec<usize>| v@), n as nat),
    ensures
        r@.no_duplicates(),
        forall|i: int| 0 <= i < r@.len() ==> r@[i] < n,
        r@.len() <= n,
        forall|k: int, x: usize| 0 <= k < r@.len() && deps@[r@[k] as int]@.contains(x) ==> exists|j: int| 0 <= j < k && r@[j] == x,
        r@.len() == n ==> forall|a: usize| a < n ==> r@.contains(a),
        r@.len() < n ==> exists|a: usize| a < n && !r@.contains(a),
        forall|a: usize| a < n && !r@.contains(a) ==> exists|x: usize| deps@[a as int]@.contains(x) && !r@.contains(x),
{
    let ghost g = deps@.map_values(|v: Vec<usize>| v@);
    // Reverse edges: rev[m] lists, in increasing order, the nodes that depend on m.
    let mut rev: Vec<Vec<usize>> = Vec::new();
    let mut m: usize = 0;
    while m < n
        invariant
            g == deps@.map_values(|v: Vec<usize>| v@),
            well_formed_graph(g, n as nat),
            m <= n,
            rev@.len() == m,
            forall|b: int| 0 <= b < m ==> (#[trigger] rev@[b])@.no_duplicates(),
            forall|b: int, c: usize| 0 <= b < m ==> ((#[trigger] rev@[b]@.contains(c)) == (c < n && g[c as int].contains(b as usize))),
        decreases n - m,
    {
        let mut children: Vec<usize> = Vec::new();
        let mut c: usize = 0;
        while c < n
            invariant
                g == deps@.map_values(|v: Vec<usize>| v@),
                well_formed_graph(g, n as nat),
                m < n,
                c <= n,
                children@.no_duplicates(),
                forall|i: int| 0 <= i < children@.len() ==> children@[i] < c,
                forall|x: usize| children@.contains(x) == (x < c && g[x as int].contains(m)),
            decreases n - c,
        {
            if contains_node(&deps[c], m) {
                let ghost before = children@;
                children.push(c);
                proof {
                    assert forall|x: usize| children@.contains(x) == (x < c + 1 && g[x as int].contains(m)) by {
                        assert(g[c as int] == deps@[c as int]@);
                        if children@.contains(x) {
                            let i = choose|i: int| 0 <= i < children@.len() && children@[i] == x;
                            if i < before.len() {
                                assert(before[i] == x);
                                assert(before.contains(x));
                            }
                        }
                        if x < c && g[x as int].contains(m) {
                            assert(before.contains(x));
                            let i = choose|i: int| 0 <= i < before.len() && before[i] == x;
                            assert(children@[i] == x);
                        }
                        if x == c {
                            assert(children@[before.len() as int] == x);
                        }
                    }
                    assert forall|i: int, j: int| 0 <= i < children@.len() && 0 <= j < children@.len() && i != j implies children@[i] != children@[j] by {
                        if i < before.len() && j < before.len() {
                            assert(children@[i] == before[i] && children@[j] == before[j]);
                        } else if i < before.len() {
                            assert(children@[i] == before[i]);
                        } else {
                            assert(children@[j] == before[j]);
                        }
                    }
                }
            } else {
                proof {
                    assert forall|x: usize| children@.contains(x) == (x < c + 1 && g[x as int].contains(m)) by {
                        if children@.contains(x) {
                            let i = choose|i: int| 0 <= i < children@.len() && children@[i] == x;
                            assert(children@[i] < c);
                        }
                    }
                }
            }
            c = c + 1;
        }
        rev.push(children);
        proof {
            assert forall|b: int, c2: usize| 0 <= b < m + 1 implies ((#[trigger] rev@[b]@.contains(c2)) == (c2 < n && g[c2 as int].contains(b as usize))) by {
                if b == m {
                    if c2 >= n {
                        if rev@[b]@.contains(c2) {
                            let i = choose|i: int| 0 <= i < rev@[b]@.len() && rev@[b]@[i] == c2;
                        }
                    }
                }
            }
        }
        m = m + 1;
    }
    // In-degrees and the initially ready nodes.
    let mut indeg: Vec<usize> = Vec::new();
    let mut queue: Vec<usize> = Vec::new();
    let mut a: usize = 0;
    while a < n
        invariant
            g == deps@.map_values(|v: Vec<usize>| v@),
            well_formed_graph(g, n as nat),
            a <= n,
            indeg@.len() == a,
            forall|b: int| 0 <= b < a ==> indeg@[b] == g[b].len(),
            queue@.no_duplicates(),
            forall|i: int| 0 <= i < queue@.len() ==> queue@[i] < a,
            forall|b: usize| queue@.contains(b) == (b < a && g[b as int].len() == 0),
        decreases n - a,
    {
        let d = deps[a].len();
        indeg.push(d);
        if d == 0 {
            let ghost before = queue@;
            queue.push(a);
            proof {
                assert forall|b: usize| queue@.contains(b) == (b < a + 1 && g[b as int].len() == 0) by {
                    assert(g[a as int] == deps@[a as int]@);
                    if queue@.contains(b) {
                        let i = choose|i: int| 0 <= i < queue@.len() && queue@[i] == b;
                        if i < before.len() {
                            assert(before[i] == b);
                            assert(before.contains(b));
                        }
                    }
                    if b < a && g[b as int].len() == 0 {
                        assert(before.contains(b));
                        let i = choose|i: int| 0 <= i < before.len() && before[i] == b;
                        assert(queue@[i] == b);
                    }
                    if b == a {
                        assert(queue@[before.len() as int] == b);
                    }
                }
                assert forall|i: int, j: int| 0 <= i < queue@.len() && 0 <= j < queue@.len() && i != j implies queue@[i] != queue@[j] by {
                    if i < before.len() && j < before.len() {
                        assert(queue@[i] == before[i] && queue@[j] == before[j]);
                    } else if i < before.len() {
                        assert(queue@[i] == before[i]);
                    } else {
                        assert(queue@[j] == before[j]);
                    }
                }
            }
        } else {
            proof {
                assert forall|b: usize| queue@.contains(b) == (b < a + 1 && g[b as int].len() == 0) by {
                    if queue@.contains(b) {
                        let i = choose|i: int| 0 <= i < queue@.len() && queue@[i] == b;
                        assert(queue@[i] < a);
                    }
                }
            }
        }
        a = a + 1;
    }
    proof {
        assert forall|b: int| 0 <= b < n implies indeg@[b] == pending(g[b], queue@.subrange(0, 0)) by {
            lemma_pending_none_done(g[b], queue@.subrange(0, 0));
        }
        assert forall|b: usize| b < n implies (queue@.contains(b) == (indeg@[b as int] == 0)) by {}
        assert forall|k: int, x: usize| 0 <= k < queue@.len() && g[queue@[k] as int].contains(x) implies exists|j: int| 0 <= j < k && j < 0 && queue@[j] == x by {
            assert(queue@.contains(queue@[k]));
            assert(g[queue@[k] as int].len() == 0);
        }
        lemma_distinct_nodes(queue@, n as nat);
    }
    let mut qh: usize = 0;
    while qh < queue.len()
        invariant
            g == deps@.map_values(|v: Vec<usize>| v@),
            well_formed_graph(g, n as nat),
            rev@.len() == n,
            forall|b: int| 0 <= b < n ==> (#[trigger] rev@[b])@.no_duplicates(),
            forall|b: int, c: usize| 0 <= b < n ==> ((#[trigger] rev@[b]@.contains(c)) == (c < n && g[c as int].contains(b as usize))),
            indeg@.len() == n,
            qh <= queue@.len(),
            queue@.len() <= n,
            queue@.no_duplicates(),
            forall|i: int| 0 <= i < queue@.len() ==> queue@[i] < n,
            forall|b: int| 0 <= b < n ==> indeg@[b] == pending(g[b], queue@.subrange(0, qh as int)),
            forall|b: usize| b < n ==> (queue@.contains(b) == (indeg@[b as int] == 0)),
            forall|k: int, x: usize| 0 <= k < queue@.len() && g[queue@[k] as int].contains(x) ==> exists|j: int| 0 <= j < k && j < qh && queue@[j] == x,
        decreases n - qh,
    {
        let node = queue[qh];
        let ghost done_before = queue@.subrange(0, qh as int);
        qh = qh + 1;
        let ghost done = queue@.subrange(0, qh as int);
        proof {
            assert(done =~= done_before.push(node));
            assert(!done_before.contains(node)) by {
                if done_before.contains(node) {
                    let i = choose|i: int| 0 <= i < done_before.len() && done_before[i] == node;
                    assert(queue@[i] == queue@[qh - 1]);
                }
            }
            assert forall|b: int| 0 <= b < n implies indeg@[b] == pending(g[b], done) + (if g[b].contains(node) { 1nat } else { 0nat }) by {
                lemma_pending_push(g[b], done_before, node);
            }
        }
        let children = &rev[node];
        let nc = children.len();
        proof {
            assert(children@.subrange(0, nc as int) =~= children@);
            assert forall|b: int| 0 <= b < n implies indeg@[b] == pending(g[b], done) + (if children@.subrange(0, nc as int).contains(b as usize) { 1nat } else { 0nat }) by {
                assert(rev@[node as int]@.contains(b as usize) == (b < n && g[b].contains(node)));
            }
        }
        let mut t: usize = 0;
        while t < nc
            invariant
                g == deps@.map_values(|v: Vec<usize>| v@),
                well_formed_graph(g, n as nat),
                rev@.len() == n,
                forall|b: int| 0 <= b < n ==> (#[trigger] rev@[b])@.no_duplicates(),
                forall|b: int, c: usize| 0 <= b < n ==> ((#[trigger] rev@[b]@.contains(c)) == (c < n && g[c as int].contains(b as usize))),
                node < n,
                children == &rev@[node as int],
                nc == children@.len(),
                t <= nc,
                indeg@.len() == n,
                1 <= qh <= queue@.len(),
                queue@[qh - 1] == node,
                done == queue@.subrange(0, qh as int),
                queue@.len() <= n,
                queue@.no_duplicates(),
                forall|i: int| 0 <= i < queue@.len() ==> queue@[i] < n,
                forall|b: int| 0 <= b < n ==> indeg@[b] == pending(g[b], done) + (if children@.subrange(t as int, nc as int).contains(b as usize) { 1nat } else { 0nat }),
                forall|b: usize| b < n ==> (queue@.contains(b) == (indeg@[b as int] == 0)),
                forall|k: int, x: usize| 0 <= k < queue@.len() && g[queue@[k] as int].contains(x) ==> exists|j: int| 0 <= j < k && j < qh && queue@[j] == x,
            decreases nc - t,
        {
            let child = children[t];
            proof {
                assert(children@.contains(child)) by {
                    assert(children@[t as int] == child);
                }
                assert(children@.subrange(t as int, nc as int)[0] == child);
                assert(children@.subrange(t as int, nc as int).contains(child));
            }
            let v = indeg[child];
            assert(v >= 1);
            indeg.set(child, v - 1);
            proof {
                assert forall|b: int| 0 <= b < n implies indeg@[b] == pending(g[b], done) + (if children@.subrange(t + 1, nc as int).contains(b as usize) { 1nat } else { 0nat }) by {
                    let rest = children@.subrange(t as int, nc as int);
                    let rest2 = children@.subrange(t + 1, nc as int);
                    if rest2.contains(b as usize) {
                        let i = choose|i: int| 0 <= i < rest2.len() && rest2[i] == b as usize;
                        assert(rest[i + 1] == b as usize);
                        assert(children@[t + 1 + i] == b as usize);
                        assert(b != child) by {
                            assert(children@[t as int] == child);
                        }
                    }
                    if rest.contains(b as usize) && b != child {
                        let i = choose|i: int| 0 <= i < rest.len() && rest[i] == b as usize;
                        assert(i != 0);
                        assert(rest2[i - 1] == b as usize);
                    }
                    if b == child {
                        if rest2.contains(b as usize) {
                            let i = choose|i: int| 0 <= i < rest2.len() && rest2[i] == b as usize;
                            assert(children@[t + 1 + i] == children@[t as int]);
                        }
                    }
                }
            }
            if v - 1 == 0 {
                let ghost before = queue@;
                proof {
                    assert(!queue@.contains(child));
                    lemma_pending_zero(g[child as int], done);
                }
                queue.push(child);
                proof {
                    assert forall|i: int, j: int| 0 <= i < queue@.len() && 0 <= j < queue@.len() && i != j implies queue@[i] != queue@[j] by {
                        if i < before.len() && j < before.len() {
                            assert(queue@[i] == before[i] && queue@[j] == before[j]);
                        } else if i < before.len() {
                            assert(queue@[i] == before[i]);
                            assert(before.contains(before[i]));
                        } else {
                            assert(queue@[j] == before[j]);
                            assert(before.contains(before[j]));
                        }
                    }
                    assert forall|b: usize| b < n implies (queue@.contains(b) == (indeg@[b as int] == 0)) by {
                        if queue@.contains(b) {
                            let i = choose|i: int| 0 <= i < queue@.len() && queue@[i] == b;
                            if i < before.len() {
                                assert(before[i] == b);
                            }
                        }
                        if before.contains(b) {
                            let i = choose|i: int| 0 <= i < before.len() && before[i] == b;
                            assert(queue@[i] == b);
                        }
                        if b == child {
                            assert(queue@[before.len() as int] == b);
                        }
                    }
                    assert forall|k: int, x: usize| 0 <= k < queue@.len() && g[queue@[k] as int].contains(x) implies exists|j: int| 0 <= j < k && j < qh && queue@[j] == x by {
                        if k < before.len() {
                            assert(queue@[k] == before[k]);
                            let j = choose|j: int| 0 <= j < k && j < qh && before[j] == x;
                            assert(queue@[j] == x);
                        } else {
                            assert(done.contains(x));
                            let j = choose|j: int| 0 <= j < done.len() && done[j] == x;
                            assert(queue@[j] == x);
                        }
                    }
                    assert(queue@.subrange(0, qh as int) =~= done);
                    lemma_distinct_nodes(queue@, n as nat);
                }
            } else {
                proof {
                    assert forall|b: usize| b < n implies (queue@.contains(b) == (indeg@[b as int] == 0)) by {
                        if b == child {
                            assert(!queue@.contains(b));
                        }
                    }
                }
            }
            t = t + 1;
        }
        proof {
            assert forall|b: int| 0 <= b < n implies indeg@[b] == pending(g[b], queue@.subrange(0, qh as int)) by {
                assert(children@.subrange(nc as int, nc as int).len() == 0);
            }
        }
    }
    proof {
        assert(queue@.subrange(0, qh as int) =~= queue@);
        assert forall|k: int, x: usize| 0 <= k < queue@.len() && deps@[queue@[k] as int]@.contains(x) implies exists|j: int| 0 <= j < k && queue@[j] == x by {
            assert(g[queue@[k] as int] == deps@[queue@[k] as int]@);
        }
        lemma_distinct_nodes(queue@, n as nat);
        if queue@.len() < n {
            if forall|a: usize| a < n ==> queue@.contains(a) {
                let s = Seq::new(n as nat, |i: int| i as usize);
                assert(s.no_duplicates());
                assert forall|i: int| 0 <= i < s.len() implies s[i] < n by {}
                // every node below n is in the queue, which is too short to hold them all
                lemma_all_nodes_bound(queue@, n as nat);
            }
        }
        assert forall|a: usize| a < n && !queue@.contains(a) implies exists|x: usize| deps@[a as int]@.contains(x) && !queue@.contains(x) by {
            assert(indeg@[a as int] != 0);
            assert(g[a as int] == deps@[a as int]@);
            lemma_pending_zero(g[a as int], queue@);
        }
    }
    queue
}

/// A sequence that holds every node below `n` holds at least `n` elements.
proof fn lemma_all_nodes_bound(q: Seq<usize>, n: nat)
    requires
        n <= usize::MAX,
        forall|a: usize| a < n ==> q.contains(a),
    ensures
        q.len() >= n,
{
    let qi = q.map_values(|x: usize| x as int);
    let s = qi.to_set();
    let range = set_int_range(0, n as int);
    lemma_int_range(0, n as int);
    assert(range.subset_of(s)) by {
        assert forall|x: int| range.contains(x) implies s.contains(x) by {
            assert(q.contains(x as usize));
            let i = choose|i: int| 0 <= i < q.len() && q[i] == x as usize;
            assert(qi[i] == x);
        }
    }
    qi.lemma_cardinality_of_set();
    lemma_len_subset(range, s);
}

/// Whether `x` occurs in `v`.
pub fn contains_node(v: &Vec<usize>, x: usize) -> (r: bool)
    ensures
        r == v@.contains(x),
{
    let n = v.len();
    let mut i: usize = 0;
    while i < n
        invariant
            n == v@.len(),
            i <= n,
            forall|j: int| 0 <= j < i ==> v@[j] != x,
        decreases n - i,
    {
        if v[i] == x {
            assert(v@[i as int] == x);
            return true;
        }
        i = i + 1;
    }
    false
}

} // verus!
