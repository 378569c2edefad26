//! Cycles in a directed graph given by its adjacency matrix.

use vstd::prelude::*;

verus! {

/// There is an edge from `m` to `j`.
pub open spec fn adj_edge(adj: Seq<Seq<bool>>, m: int, j: int) -> bool {
    0 <= m < adj.len() && 0 <= j < adj.len() && 0 <= j < adj[m].len() && adj[m][j]
}

/// The vertices reached from `i` by exactly `k` edges.
pub open spec fn adj_reach(adj: Seq<Seq<bool>>, i: int, k: nat) -> Set<int>
    decreases k,
{
    if k == 0 {
        set![i]
    } else {
        Set::new(|j: int| exists|m: int| adj_reach(adj, i, (k - 1) as nat).contains(m) && #[trigger] adj_edge(adj, m, j))
    }
}

/// Some vertex reaches itself by at most as many edges as there are vertices.
pub open spec fn adj_has_cycle(adj: Seq<Seq<bool>>) -> bool {
    exists|i: int, k: int| 0 <= i < adj.len() && 1 <= k <= adj.len() && #[trigger] adj_reach(adj, i, k as nat).contains(i)
}

pub open spec fn square(adj: Seq<Vec<bool>>) -> bool {
    forall|m: int| 0 <= m < adj.len() ==> (#[trigger] adj[m])@.len() == adj.len()
}

pub open spec fn rows(adj: Seq<Vec<bool>>) -> Seq<Seq<bool>> {
    Seq::new(adj.len(), |m: int| adj[m]@)
}

/// Whether the graph of a square adjacency matrix has a cycle.
pub fn has_cycle(adj: &Vec<Vec<bool>>) -> (r: bool)
    requires
        square(adj@),
    ensures
        r == adj_has_cycle(rows(adj@)),
{
    let n = adj.len();
    let ghost g = rows(adj@);
    let mut i: usize = 0;
    while i < n
        invariant
            n == adj@.len(),
            g == rows(adj@),
            square(adj@),
            i <= n,
            forall|a: int, k: int| 0 <= a < i && 1 <= k <= n ==> !#[trigger] adj_reach(g, a, k as nat).contains(a),
        decreases n - i,
    {
        let mut cur: Vec<bool> = Vec::new();
        let mut j: usize = 0;
        while j < n
            invariant
                j <= n,
                i < n,
                cur@.len() == j,
                forall|b: int| 0 <= b < j ==> (cur@[b] <==> b == i),
            decreases n - j,
        {
            cur.push(j == i);
            j = j + 1;
        }
        assert forall|b: int| 0 <= b < n implies (cur@[b] <==> adj_reach(g, i as int, 0).contains(b)) by {}
        let mut k: usize = 1;
        while k - 1 < n
            invariant
                n == adj@.len(),
                g == rows(adj@),
                square(adj@),
                i < n,
                1 <= k <= n,
                cur@.len() == n,
                forall|b: int| 0 <= b < n ==> (cur@[b] <==> adj_reach(g, i as int, (k - 1) as nat).contains(b)),
                forall|kk: int| 1 <= kk < k ==> !#[trigger] adj_reach(g, i as int, kk as nat).contains(i as int),
            ensures
                forall|kk: int| 1 <= kk <= n ==> !#[trigger] adj_reach(g, i as int, kk as nat).contains(i as int),
            decreases n - k,
        {
            let mut next: Vec<bool> = Vec::new();
            let mut b: usize = 0;
            while b < n
                invariant
                    n == adj@.len(),
                    g == rows(adj@),
                    square(adj@),
                    i < n,
                    1 <= k <= n,
                    b <= n,
                    next@.len() == b,
                    cur@.len() == n,
                    forall|c: int| 0 <= c < n ==> (cur@[c] <==> adj_reach(g, i as int, (k - 1) as nat).contains(c)),
                    forall|c: int| 0 <= c < b ==> (next@[c] <==> adj_reach(g, i as int, k as nat).contains(c)),
                decreases n - b,
            {
                let mut found = false;
                let mut m: usize = 0;
                while m < n
                    invariant
                        n == adj@.len(),
                        g == rows(adj@),
                        square(adj@),
                        i < n,
                        b < n,
                        m <= n,
                        cur@.len() == n,
                        forall|c: int| 0 <= c < n ==> (cur@[c] <==> adj_reach(g, i as int, (k - 1) as nat).contains(c)),
                        found <==> exists|mm: int| 0 <= mm < m && cur@[mm] && #[trigger] adj_edge(g, mm, b as int),
                    decreases n - m,
                {
                    let c = cur[m];
                    let e = adj[m][b];
                    assert(g[m as int] == adj@[m as int]@);
                    if c && e {
                        found = true;
                        assert(cur@[m as int] && adj_edge(g, m as int, b as int));
                    } else {
                        assert(!(cur@[m as int] && adj_edge(g, m as int, b as int)));
                    }
                    m = m + 1;
                }
                proof {
                    if adj_reach(g, i as int, k as nat).contains(b as int) {
                        let mm = choose|mm: int| adj_reach(g, i as int, (k - 1) as nat).contains(mm) && #[trigger] adj_edge(g, mm, b as int);
                        assert(cur@[mm]);
                    }
                    if found {
                        let mm = choose|mm: int| 0 <= mm < n && cur@[mm] && #[trigger] adj_edge(g, mm, b as int);
                        assert(adj_reach(g, i as int, (k - 1) as nat).contains(mm));
                        assert(adj_reach(g, i as int, k as nat).contains(b as int));
                    }
                }
                next.push(found);
                b = b + 1;
            }
            if next[i] {
                assert(adj_has_cycle(g)) by {
                    let ghost kk: int = k as int;
                    assert(adj_reach(g, i as int, kk as nat).contains(i as int));
                }
                return true;
            }
            if k == n {
                break;
            }
            cur = next;
            k = k + 1;
        }
        i = i + 1;
    }
    assert(!adj_has_cycle(g)) by {
        assert forall|a: int, k: int| 0 <= a < g.len() && 1 <= k <= g.len() implies !#[trigger] adj_reach(g, a, k as nat).contains(a) by {}
    }
    false
}

/// Each vertex occurs in the order exactly once, and every edge between
/// vertices of the order goes forward.
pub open spec fn is_topo_order(a: Seq<Seq<bool>>, order: Seq<int>) -> bool {
    &&& forall|p: int| 0 <= p < order.len() ==> 0 <= #[trigger] order[p] < a.len()
    &&& forall|p: int, q: int| 0 <= p < q < order.len() ==> #[trigger] order[p] != #[trigger] order[q]
    &&& forall|j: int| 0 <= j < a.len() ==> #[trigger] placed(order, j)
    &&& forall|p: int, q: int| 0 <= p <= q < order.len() ==> !adj_edge(a, #[trigger] order[q], #[trigger] order[p])
}

/// The vertex occurs in the order.
pub open spec fn placed(order: Seq<int>, j: int) -> bool {
    exists|p: int| 0 <= p < order.len() && #[trigger] order[p] == j
}

/// A non-empty set of vertices each of which has an edge into it from the set.
pub open spec fn is_stuck_core(a: Seq<Seq<bool>>, s: Set<int>) -> bool {
    &&& exists|j: int| #[trigger] s.contains(j)
    &&& forall|j: int| #[trigger] s.contains(j) ==> 0 <= j < a.len() && exists|m: int| s.contains(m) && #[trigger] adj_edge(a, m, j)
}

/// A vertex all of whose predecessors are done.
pub open spec fn ready(a: Seq<Seq<bool>>, done: Seq<bool>, j: int) -> bool {
    forall|m: int| 0 <= m < a.len() && #[trigger] adj_edge(a, m, j) ==> done[m]
}

fn find_ready(adj: &Vec<Vec<bool>>, done: &Vec<bool>) -> (r: Option<usize>)
    requires
        square(adj@),
        done@.len() == adj@.len(),
    ensures
        r matches Some(j) ==> j < adj@.len() && !done@[j as int] && ready(rows(adj@), done@, j as int),
        r is None ==> forall|j: int| 0 <= j < adj@.len() && !done@[j] ==> !ready(rows(adj@), done@, j),
{
    let n = adj.len();
    let ghost g = rows(adj@);
    let mut j: usize = 0;
    while j < n
        invariant
            n == adj@.len(),
            g == rows(adj@),
            square(adj@),
            done@.len() == n,
            j <= n,
            forall|k: int| 0 <= k < j && !done@[k] ==> !ready(g, done@, k),
        decreases n - j,
    {
        if !done[j] {
            let mut m: usize = 0;
            let mut ok = true;
            while m < n
                invariant
                    n == adj@.len(),
                    g == rows(adj@),
                    square(adj@),
                    done@.len() == n,
                    j < n,
                    m <= n,
                    ok == forall|k: int| 0 <= k < m && adj_edge(g, k, j as int) ==> done@[k],
                decreases n - m,
            {
                if adj[m][j] && !done[m] {
                    assert(adj_edge(g, m as int, j as int));
                    ok = false;
                }
                m = m + 1;
            }
            if ok {
                return Some(j);
            }
        }
        j = j + 1;
    }
    None
}

/// Vertex `m` is placed before position `p`.
pub open spec fn placed_before(order: Seq<usize>, p: int, m: int) -> bool {
    exists|q: int| 0 <= q < p && #[trigger] order[q] == m
}

/// What the placing loop keeps: placed vertices are distinct, in range and
/// marked done; done vertices are placed; each placed vertex's predecessors
/// are placed before it.
pub open spec fn kahn_inv(g: Seq<Seq<bool>>, order: Seq<usize>, done: Seq<bool>) -> bool {
    let n = g.len();
    &&& done.len() == n
    &&& forall|p: int| 0 <= p < order.len() ==> (#[trigger] order[p]) < n && done[order[p] as int]
    &&& forall|x: int| 0 <= x < n && #[trigger] done[x] ==> placed_before(order, order.len() as int, x)
    &&& forall|p: int, q: int| 0 <= p < q < order.len() ==> #[trigger] order[p] != #[trigger] order[q]
    &&& forall|p: int, m: int| 0 <= p < order.len() && 0 <= m < n && #[trigger] adj_edge(g, m, order[p] as int) ==> placed_before(order, p, m)
}

proof fn lemma_kahn_push(g: Seq<Seq<bool>>, order: Seq<usize>, done: Seq<bool>, j: usize)
    requires
        kahn_inv(g, order, done),
        j < g.len(),
        !done[j as int],
        ready(g, done, j as int),
    ensures
        kahn_inv(g, order.push(j), done.update(j as int, true)),
{
    let n = g.len();
    let o2 = order.push(j);
    let d2 = done.update(j as int, true);
    assert forall|p: int| 0 <= p < o2.len() implies (#[trigger] o2[p]) < n && d2[o2[p] as int] by {
        if p < order.len() {
            assert(o2[p] == order[p]);
        }
    }
    assert forall|x: int| 0 <= x < n && #[trigger] d2[x] implies placed_before(o2, o2.len() as int, x) by {
        if x == j {
            assert(o2[order.len() as int] == j);
        } else {
            assert(done[x]);
            let q = choose|q: int| 0 <= q < order.len() && #[trigger] order[q] == x;
            assert(o2[q] == order[q]);
        }
    }
    assert forall|p: int, q: int| 0 <= p < q < o2.len() implies #[trigger] o2[p] != #[trigger] o2[q] by {
        if q == order.len() {
            assert(o2[p] == order[p]);
            assert(done[order[p] as int]);
        } else {
            assert(o2[p] == order[p] && o2[q] == order[q]);
        }
    }
    assert forall|p: int, m: int| 0 <= p < o2.len() && 0 <= m < n && #[trigger] adj_edge(g, m, o2[p] as int) implies placed_before(o2, p, m) by {
        if p == order.len() {
            assert(done[m]);
            let q = choose|q: int| 0 <= q < order.len() && #[trigger] order[q] == m;
            assert(o2[q] == order[q]);
        } else {
            assert(o2[p] == order[p]);
            assert(placed_before(order, p, m));
            let q = choose|q: int| 0 <= q < p && #[trigger] order[q] == m;
            assert(o2[q] == order[q]);
        }
    }
}

proof fn lemma_kahn_room(g: Seq<Seq<bool>>, order: Seq<usize>, done: Seq<bool>, j: usize)
    requires
        kahn_inv(g, order, done),
        j < g.len(),
        !done[j as int],
    ensures
        order.len() < g.len(),
{
    let n = g.len() as int;
    let ov = order.map_values(|v: usize| v as int);
    assert(ov.no_duplicates()) by {
        assert forall|p: int, q: int| 0 <= p < ov.len() && 0 <= q < ov.len() && p != q implies ov[p] != ov[q] by {
            if p < q {
                assert(order[p] != order[q]);
            } else {
                assert(order[q] != order[p]);
            }
        }
    }
    ov.unique_seq_to_set();
    let st = ov.to_set();
    let full = vstd::set_lib::set_int_range(0, n);
    vstd::set_lib::lemma_int_range(0, n);
    assert(st.subset_of(full.remove(j as int))) by {
        assert forall|y: int| st.contains(y) implies full.remove(j as int).contains(y) by {
            let p = choose|p: int| 0 <= p < ov.len() && ov[p] == y;
            assert(order[p] < n);
            assert(done[order[p] as int]);
        }
    }
    vstd::set_lib::lemma_len_subset(st, full.remove(j as int));
}

proof fn lemma_kahn_stuck(g: Seq<Seq<bool>>, order: Seq<usize>, done: Seq<bool>, x: int)
    requires
        kahn_inv(g, order, done),
        0 <= x < g.len(),
        !done[x],
        forall|j: int| 0 <= j < g.len() && !done[j] ==> !ready(g, done, j),
    ensures
        exists|s: Set<int>| is_stuck_core(g, s),
{
    let s = Set::new(|y: int| 0 <= y < g.len() && !done[y]);
    assert(s.contains(x));
    assert forall|y: int| #[trigger] s.contains(y) implies 0 <= y < g.len() && exists|m: int| s.contains(m) && #[trigger] adj_edge(g, m, y) by {
        assert(!ready(g, done, y));
        let m = choose|m: int| !(0 <= m < g.len() && #[trigger] adj_edge(g, m, y) ==> done[m]);
        assert(s.contains(m));
    }
    assert(is_stuck_core(g, s));
}

proof fn lemma_kahn_done(g: Seq<Seq<bool>>, order: Seq<usize>, done: Seq<bool>)
    requires
        kahn_inv(g, order, done),
        forall|y: int| 0 <= y < g.len() ==> done[y],
    ensures
        is_topo_order(g, order.map_values(|v: usize| v as int)),
{
    let ov = order.map_values(|v: usize| v as int);
    assert forall|j: int| 0 <= j < g.len() implies #[trigger] placed(ov, j) by {
        assert(done[j]);
        let p = choose|p: int| 0 <= p < order.len() && #[trigger] order[p] == j;
        assert(ov[p] == j);
    }
    assert forall|p: int, q: int| 0 <= p < q < ov.len() implies #[trigger] ov[p] != #[trigger] ov[q] by {
        assert(order[p] != order[q]);
    }
    assert forall|p: int, q: int| 0 <= p <= q < ov.len() implies !adj_edge(g, #[trigger] ov[q], #[trigger] ov[p]) by {
        if adj_edge(g, ov[q], ov[p]) {
            assert(order[q] < g.len());
            assert(adj_edge(g, ov[q], order[p] as int));
            let r = choose|r: int| 0 <= r < p && #[trigger] order[r] == ov[q];
            assert(order[r] == order[q]);
        }
    }
    assert forall|p: int| 0 <= p < ov.len() implies 0 <= #[trigger] ov[p] < g.len() by {
        assert(order[p] < g.len());
    }
}

/// A topological order of a square adjacency matrix: repeatedly the first
/// vertex not yet placed whose predecessors all are; none when no such
/// vertex remains before all are placed, the rest then being a stuck core.
pub fn topo_order(adj: &Vec<Vec<bool>>) -> (r: Option<Vec<usize>>)
    requires
        square(adj@),
    ensures
        r matches Some(order) ==> is_topo_order(rows(adj@), order@.map_values(|v: usize| v as int)),
        r is None ==> exists|s: Set<int>| is_stuck_core(rows(adj@), s),
        r is None ==> forall|order: Seq<int>| !is_topo_order(rows(adj@), order),
{
    let n = adj.len();
    let ghost g = rows(adj@);
    let mut done: Vec<bool> = Vec::new();
    let mut k: usize = 0;
    while k < n
        invariant
            k <= n,
            done@.len() == k,
            forall|x: int| 0 <= x < k ==> !done@[x],
        decreases n - k,
    {
        done.push(false);
        k = k + 1;
    }
    let mut order: Vec<usize> = Vec::new();
    loop
        invariant
            n == adj@.len(),
            g == rows(adj@),
            g.len() == n,
            square(adj@),
            kahn_inv(g, order@, done@),
        decreases n - order@.len(),
    {
        match find_ready(adj, &done) {
            Some(j) => {
                proof {
                    lemma_kahn_room(g, order@, done@, j);
                    lemma_kahn_push(g, order@, done@, j);
                }
                order.push(j);
                done.set(j, true);
            },
            None => {
                let mut x: usize = 0;
                while x < n
                    invariant
                        n == done@.len(),
                        g == rows(adj@),
                        g.len() == n,
                        kahn_inv(g, order@, done@),
                        forall|j: int| 0 <= j < g.len() && !done@[j] ==> !ready(g, done@, j),
                        x <= n,
                        forall|y: int| 0 <= y < x ==> done@[y],
                    decreases n - x,
                {
                    if !done[x] {
                        proof {
                            lemma_kahn_stuck(g, order@, done@, x as int);
                            let s = choose|s: Set<int>| is_stuck_core(g, s);
                            assert forall|o: Seq<int>| !is_topo_order(g, o) by {
                                law_stuck_core_has_no_topo_order(g, s, o);
                            }
                        }
                        return None;
                    }
                    x = x + 1;
                }
                proof {
                    lemma_kahn_done(g, order@, done@);
                }
                return Some(order);
            },
        }
    }
}

/// The first position of the order whose vertex is in `s`.
proof fn lemma_first_in_set(order: Seq<int>, s: Set<int>) -> (p: int)
    requires
        exists|k: int| 0 <= k < order.len() && s.contains(#[trigger] order[k]),
    ensures
        0 <= p < order.len(),
        s.contains(order[p]),
        forall|k: int| 0 <= k < p ==> !s.contains(#[trigger] order[k]),
    decreases order.len(),
{
    if s.contains(order[0]) {
        0
    } else {
        let k0 = choose|k: int| 0 <= k < order.len() && s.contains(#[trigger] order[k]);
        assert(order.drop_first()[k0 - 1] == order[k0]);
        let q = lemma_first_in_set(order.drop_first(), s);
        assert forall|k: int| 0 <= k < q + 1 implies !s.contains(#[trigger] order[k]) by {
            if k > 0 {
                assert(order[k] == order.drop_first()[k - 1]);
            }
        }
        q + 1
    }
}

/// A graph with a stuck core (vertices each of which has a predecessor among
/// them) has no topological order: the core's first vertex in any order would
/// follow one of its predecessors.
pub proof fn law_stuck_core_has_no_topo_order(a: Seq<Seq<bool>>, s: Set<int>, order: Seq<int>)
    requires
        is_stuck_core(a, s),
    ensures
        !is_topo_order(a, order),
{
    if is_topo_order(a, order) {
        let j = choose|j: int| #[trigger] s.contains(j);
        assert(placed(order, j));
        let k = choose|k: int| 0 <= k < order.len() && #[trigger] order[k] == j;
        assert(s.contains(order[k]));
        let p = lemma_first_in_set(order, s);
        let first = order[p];
        let m = choose|m: int| s.contains(m) && #[trigger] adj_edge(a, m, first);
        assert(placed(order, m));
        let q = choose|q: int| 0 <= q < order.len() && #[trigger] order[q] == m;
        if q < p {
            assert(!s.contains(order[q]));
        }
        assert(!adj_edge(a, order[q], order[p]));
    }
}

} // verus!
