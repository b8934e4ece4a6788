//! The dependency resolver: a processing order in which every node comes
//! after the nodes whose output it consumes.

use vstd::prelude::*;
use crate::error::{Failure, PipelineError};
use crate::graph::{ids_of, precedes, NodeData, PipelineData};
use crate::text::{is_position, lemma_position, position_of, same, views};

verus! {

/// Connection `c` keeps node `w` waiting: it leads to `w`, and what it comes
/// from is not done (or is no node at all).
pub open spec fn blocks(
    src: Seq<usize>,
    dst: Seq<usize>,
    done: Seq<bool>,
    c: int,
    w: int,
) -> bool {
    dst[c] == w && !(src[c] < done.len() && done[src[c] as int])
}

/// How many of the connections `lo..hi` keep `w` waiting.
pub open spec fn pending(
    src: Seq<usize>,
    dst: Seq<usize>,
    done: Seq<bool>,
    w: int,
    lo: int,
    hi: int,
) -> nat
    decreases hi - lo,
{
    if hi <= lo {
        0
    } else {
        pending(src, dst, done, w, lo, hi - 1) + if blocks(src, dst, done, hi - 1, w) {
            1nat
        } else {
            0nat
        }
    }
}

/// `a` stands at a smaller index of `s` than `b`.
pub open spec fn before(s: Seq<usize>, a: usize, b: usize) -> bool {
    exists|i: int, j: int| 0 <= i < j < s.len() && #[trigger] s[i] == a && #[trigger] s[j] == b
}

/// The count over a range is the sum of the counts over its two parts.
proof fn lemma_pending_split(
    src: Seq<usize>,
    dst: Seq<usize>,
    done: Seq<bool>,
    w: int,
    lo: int,
    mid: int,
    hi: int,
)
    requires
        lo <= mid <= hi,
    ensures
        pending(src, dst, done, w, lo, hi) == pending(src, dst, done, w, lo, mid) + pending(
            src,
            dst,
            done,
            w,
            mid,
            hi,
        ),
    decreases hi - mid,
{
    if mid < hi {
        lemma_pending_split(src, dst, done, w, lo, mid, hi - 1);
    }
}

/// No more connections keep a node waiting than there are.
proof fn lemma_pending_bound(
    src: Seq<usize>,
    dst: Seq<usize>,
    done: Seq<bool>,
    w: int,
    lo: int,
    hi: int,
)
    requires
        lo <= hi,
    ensures
        pending(src, dst, done, w, lo, hi) <= hi - lo,
    decreases hi - lo,
{
    if lo < hi {
        lemma_pending_bound(src, dst, done, w, lo, hi - 1);
    }
}

/// Where the count is zero, no connection of the range keeps the node
/// waiting.
proof fn lemma_pending_zero(
    src: Seq<usize>,
    dst: Seq<usize>,
    done: Seq<bool>,
    w: int,
    lo: int,
    hi: int,
)
    requires
        pending(src, dst, done, w, lo, hi) == 0,
    ensures
        forall|c: int| lo <= c < hi ==> !blocks(src, dst, done, c, w),
    decreases hi - lo,
{
    if lo < hi {
        lemma_pending_zero(src, dst, done, w, lo, hi - 1);
    }
}

/// Where the count is positive, some connection of the range keeps the node
/// waiting.
proof fn lemma_pending_positive(
    src: Seq<usize>,
    dst: Seq<usize>,
    done: Seq<bool>,
    w: int,
    lo: int,
    hi: int,
) -> (c: int)
    requires
        pending(src, dst, done, w, lo, hi) > 0,
    ensures
        lo <= c < hi,
        blocks(src, dst, done, c, w),
    decreases hi - lo,
{
    if blocks(src, dst, done, hi - 1, w) {
        hi - 1
    } else {
        lemma_pending_positive(src, dst, done, w, lo, hi - 1)
    }
}

/// Where `name` first occurs among the ids of `nodes`.
pub fn position(nodes: &Vec<NodeData>, name: &str) -> (p: usize)
    ensures
        is_position(ids_of(nodes@), name@, p as int),
        p == position_of(ids_of(nodes@), name@),
{
    let n = nodes.len();
    let mut p: usize = 0;
    while p < n
        invariant
            n == nodes@.len(),
            p <= n,
            forall|k: int| 0 <= k < p ==> ids_of(nodes@)[k] != name@,
        decreases n - p,
    {
        if same(nodes[p].id.as_str(), name) {
            proof {
                lemma_position(ids_of(nodes@), name@, p as int);
            }
            return p;
        }
        p = p + 1;
    }
    proof {
        lemma_position(ids_of(nodes@), name@, p as int);
    }
    p
}

/// Whether no id occurs twice among `nodes`.
fn ids_are_unique(nodes: &Vec<NodeData>) -> (unique: bool)
    ensures
        unique == ids_of(nodes@).no_duplicates(),
{
    let n = nodes.len();
    let mut i: usize = 0;
    while i < n
        invariant
            n == nodes@.len(),
            i <= n,
            forall|a: int, b: int| 0 <= a < b < i ==> ids_of(nodes@)[a] != ids_of(nodes@)[b],
        decreases n - i,
    {
        let p = position(nodes, nodes[i].id.as_str());
        assert(ids_of(nodes@)[i as int] == nodes@[i as int].id@);
        if p != i {
            assert(p < i);
            assert(ids_of(nodes@)[p as int] == ids_of(nodes@)[i as int]);
            return false;
        }
        i = i + 1;
    }
    true
}


/// What holds of the nodes emitted so far: each is emitted once and marked
/// done, and every connection into an emitted node comes from a node that was
/// emitted before it.
pub open spec fn emitted_in_order(
    n: int,
    src: Seq<usize>,
    dst: Seq<usize>,
    emitted: Seq<usize>,
    done: Seq<bool>,
) -> bool {
    &&& done.len() == n
    &&& src.len() == dst.len()
    &&& emitted.no_duplicates()
    &&& forall|i: int| 0 <= i < emitted.len() ==> #[trigger] emitted[i] < n
    &&& forall|v: int| 0 <= v < n ==> (#[trigger] done[v] <==> emitted.contains(v as usize))
    &&& forall|c: int|
        0 <= c < dst.len() && #[trigger] dst[c] < n && done[dst[c] as int] ==> src[c] < n
            && before(emitted, src[c], dst[c])
}

/// A sequence of distinct indices below `n` has at most `n` members, and if
/// it has `n` it holds every index below `n`.
proof fn lemma_distinct_indices(s: Seq<usize>, n: int)
    requires
        0 <= n <= usize::MAX,
        s.no_duplicates(),
        forall|i: int| 0 <= i < s.len() ==> #[trigger] s[i] < n,
    ensures
        s.len() <= n,
        s.len() == n ==> forall|v: usize| v < n ==> s.contains(v),
        (forall|v: usize| v < n ==> s.contains(v)) ==> s.len() == n,
{
    let t = s.map_values(|x: usize| x as int);
    assert(t.no_duplicates()) by {
        assert forall|i: int, j: int| 0 <= i < t.len() && 0 <= j < t.len() && i != j implies t[i]
            != t[j] by {
            assert(t[i] == s[i] as int);
            assert(t[j] == s[j] as int);
        }
    }
    t.unique_seq_to_set();
    let range = vstd::set_lib::set_int_range(0, n);
    vstd::set_lib::lemma_int_range(0, n);
    assert(t.to_set().subset_of(range)) by {
        assert forall|x: int| t.to_set().contains(x) implies range.contains(x) by {
            let i = choose|i: int| 0 <= i < t.len() && t[i] == x;
            assert(t[i] == s[i] as int);
        }
    }
    vstd::set_lib::lemma_len_subset(t.to_set(), range);
    if forall|v: usize| v < n ==> s.contains(v) {
        assert(range.subset_of(t.to_set())) by {
            assert forall|x: int| range.contains(x) implies t.to_set().contains(x) by {
                let v = x as usize;
                assert(s.contains(v));
                let i = choose|i: int| 0 <= i < s.len() && s[i] == v;
                assert(t[i] == s[i] as int);
            }
        }
        vstd::set_lib::lemma_len_subset(range, t.to_set());
    }
    if s.len() == n {
        vstd::set_lib::lemma_subset_equality(t.to_set(), range);
        assert forall|v: usize| v < n implies s.contains(v) by {
            assert(range.contains(v as int));
            assert(t.to_set().contains(v as int));
            let i = choose|i: int| 0 <= i < t.len() && t[i] == v as int;
            assert(t[i] == s[i] as int);
            assert(s[i] == v);
        }
    }
}

/// Which of the nodes `0..n` are among `emitted`.
pub open spec fn done_of(emitted: Seq<usize>, n: int) -> Seq<bool> {
    Seq::new(n as nat, |v: int| emitted.contains(v as usize))
}

/// The nodes that become ready when node `v` is emitted, as far as the
/// connections `0..upto` show: those to which one of these connections leads
/// from `v`, and which nothing keeps waiting once that connection is counted
/// off. `before` says which nodes were done before `v`.
pub open spec fn released(
    src: Seq<usize>,
    dst: Seq<usize>,
    before: Seq<bool>,
    v: usize,
    upto: int,
) -> Seq<usize>
    decreases upto,
{
    if upto <= 0 {
        Seq::<usize>::empty()
    } else {
        let c = upto - 1;
        let earlier = released(src, dst, before, v, c);
        if src[c] == v && dst[c] < before.len() && pending(
            src,
            dst,
            before.update(v as int, true),
            dst[c] as int,
            0,
            c + 1,
        ) + pending(src, dst, before, dst[c] as int, c + 1, dst.len() as int) == 0 {
            earlier.push(dst[c])
        } else {
            earlier
        }
    }
}

/// The nodes below `upto` that nothing keeps waiting at the start, in rising
/// order.
pub open spec fn first_ready(src: Seq<usize>, dst: Seq<usize>, n: int, upto: int) -> Seq<usize>
    decreases upto,
{
    if upto <= 0 {
        Seq::<usize>::empty()
    } else {
        let earlier = first_ready(src, dst, n, upto - 1);
        if pending(src, dst, done_of(Seq::<usize>::empty(), n), upto - 1, 0, dst.len() as int) == 0 {
            earlier.push((upto - 1) as usize)
        } else {
            earlier
        }
    }
}

/// The rest of the sort: as long as a node is ready, the one that became
/// ready last is emitted, and the nodes that it releases become ready behind
/// the others.
pub open spec fn sorted_from(
    src: Seq<usize>,
    dst: Seq<usize>,
    n: int,
    emitted: Seq<usize>,
    ready: Seq<usize>,
    rounds: nat,
) -> Seq<usize>
    decreases rounds,
{
    if rounds == 0 || ready.len() == 0 {
        emitted
    } else {
        sorted_from(
            src,
            dst,
            n,
            emitted.push(ready.last()),
            ready.drop_last() + released(
                src,
                dst,
                done_of(emitted, n),
                ready.last(),
                dst.len() as int,
            ),
            (rounds - 1) as nat,
        )
    }
}

/// The order in which the sort emits the nodes `0..n`.
pub open spec fn sorted_indices(n: int, src: Seq<usize>, dst: Seq<usize>) -> Seq<usize> {
    sorted_from(src, dst, n, Seq::<usize>::empty(), first_ready(src, dst, n, n), n as nat)
}

/// Kahn's algorithm on node indices. `src[c]` and `dst[c]` are the two ends of
/// connection `c`; an end that is no node is written `n`. Returns the nodes in
/// the order in which they were emitted, and which nodes were emitted at all.
fn sort_indices(n: usize, src: &Vec<usize>, dst: &Vec<usize>) -> (sorted: (Vec<usize>, Vec<bool>))
    requires
        src@.len() == dst@.len(),
    ensures
        emitted_in_order(n as int, src@, dst@, sorted.0@, sorted.1@),
        sorted.0@ == sorted_indices(n as int, src@, dst@),
        forall|v: int|
            0 <= v < n && !(#[trigger] sorted.1@[v]) ==> pending(
                src@,
                dst@,
                sorted.1@,
                v,
                0,
                dst@.len() as int,
            ) > 0,
{
    let m = src.len();
    let mut done: Vec<bool> = Vec::new();
    let mut indeg: Vec<usize> = Vec::new();
    let mut i: usize = 0;
    while i < n
        invariant
            i <= n,
            done@.len() == i,
            indeg@.len() == i,
            forall|k: int| 0 <= k < i ==> !(#[trigger] done@[k]),
            forall|k: int| 0 <= k < i ==> #[trigger] indeg@[k] == 0,
        decreases n - i,
    {
        done.push(false);
        indeg.push(0);
        i = i + 1;
    }
    let mut c: usize = 0;
    while c < m
        invariant
            c <= m,
            m == src@.len(),
            m == dst@.len(),
            done@.len() == n,
            indeg@.len() == n,
            forall|k: int| 0 <= k < n ==> !(#[trigger] done@[k]),
            forall|w: int|
                0 <= w < n ==> #[trigger] indeg@[w] == pending(src@, dst@, done@, w, 0, c as int),
        decreases m - c,
    {
        let t = dst[c];
        if t < n {
            proof {
                lemma_pending_bound(src@, dst@, done@, t as int, 0, c as int);
            }
            let bumped = indeg[t] + 1;
            indeg.set(t, bumped);
        }
        c = c + 1;
    }
    let mut ready: Vec<usize> = Vec::new();
    let mut v: usize = 0;
    assert(done@ =~= done_of(Seq::<usize>::empty(), n as int));
    while v < n
        invariant
            v <= n,
            indeg@.len() == n,
            m == dst@.len(),
            forall|w: int|
                0 <= w < n ==> #[trigger] indeg@[w] == pending(
                    src@,
                    dst@,
                    done_of(Seq::<usize>::empty(), n as int),
                    w,
                    0,
                    m as int,
                ),
            ready@ == first_ready(src@, dst@, n as int, v as int),
            ready@.no_duplicates(),
            forall|k: int| 0 <= k < ready@.len() ==> (#[trigger] ready@[k]) < v && indeg@[ready@[k] as int] == 0,
            forall|w: int| 0 <= w < v && #[trigger] indeg@[w] == 0 ==> ready@.contains(w as usize),
        decreases n - v,
    {
        if indeg[v] == 0 {
            let ghost before_push = ready@;
            ready.push(v);
            proof {
                assert(ready@[before_push.len() as int] == v);
                assert forall|w: int| 0 <= w < v + 1 && #[trigger] indeg@[w] == 0 implies ready@.contains(
                    w as usize,
                ) by {
                    if w < v {
                        let k = choose|k: int| 0 <= k < before_push.len() && before_push[k] == w as usize;
                        assert(ready@[k] == w as usize);
                    }
                }
            }
        }
        v = v + 1;
    }
    let mut emitted: Vec<usize> = Vec::new();
    while ready.len() > 0
        invariant
            m == src@.len(),
            m == dst@.len(),
            indeg@.len() == n,
            emitted@.len() <= n,
            sorted_indices(n as int, src@, dst@) == sorted_from(
                src@,
                dst@,
                n as int,
                emitted@,
                ready@,
                (n - emitted@.len()) as nat,
            ),
            emitted_in_order(n as int, src@, dst@, emitted@, done@),
            forall|w: int|
                0 <= w < n ==> #[trigger] indeg@[w] == pending(src@, dst@, done@, w, 0, m as int),
            ready@.no_duplicates(),
            forall|k: int|
                0 <= k < ready@.len() ==> (#[trigger] ready@[k]) < n && !done@[ready@[k] as int]
                    && indeg@[ready@[k] as int] == 0,
            forall|w: int|
                0 <= w < n && !(#[trigger] done@[w]) && indeg@[w] == 0 ==> ready@.contains(w as usize),
        decreases n - emitted@.len(),
    {
        let ghost ready_old = ready@;
        let ghost done_old = done@;
        let ghost emitted_old = emitted@;
        let v = ready.pop().unwrap();
        proof {
            assert(v == ready_old[ready_old.len() - 1]);
            assert(ready@ == ready_old.drop_last());
            lemma_pending_zero(src@, dst@, done_old, v as int, 0, m as int);
            let grown = emitted_old.push(v);
            assert(grown.no_duplicates()) by {
                assert(!emitted_old.contains(v));
                assert forall|a: int, b: int|
                    0 <= a < grown.len() && 0 <= b < grown.len() && a != b implies grown[a] != grown[b] by {
                    if a < emitted_old.len() {
                        assert(emitted_old.contains(grown[a]));
                    }
                    if b < emitted_old.len() {
                        assert(emitted_old.contains(grown[b]));
                    }
                }
            }
            lemma_distinct_indices(grown, n as int);
        }
        done.set(v, true);
        emitted.push(v);
        proof {
            assert(emitted@[emitted_old.len() as int] == v);
            assert forall|k: int| 0 <= k < ready@.len() implies (#[trigger] ready@[k]) < n && !done@[ready@[k] as int]
                && indeg@[ready@[k] as int] == 0 by {
                assert(ready@[k] == ready_old[k]);
            }
            assert forall|w: int|
                0 <= w < n && !(#[trigger] done@[w]) && indeg@[w] == 0 implies ready@.contains(
                w as usize,
            ) by {
                assert(!done_old[w]);
                let k = choose|k: int| 0 <= k < ready_old.len() && ready_old[k] == w as usize;
                assert(k < ready_old.len() - 1);
                assert(ready@[k] == w as usize);
            }
        }
        assert(ready@ =~= ready_old.drop_last() + released(src@, dst@, done_old, v, 0));
        let mut c: usize = 0;
        while c < m
            invariant
                c <= m,
                m == src@.len(),
                m == dst@.len(),
                v < n,
                indeg@.len() == n,
                done_old.len() == n,
                !done_old[v as int],
                done@ == done_old.update(v as int, true),
                emitted@ == emitted_old.push(v),
                ready@ == ready_old.drop_last() + released(src@, dst@, done_old, v, c as int),
                emitted_in_order(n as int, src@, dst@, emitted_old, done_old),
                forall|e: int| 0 <= e < m ==> !blocks(src@, dst@, done_old, e, v as int),
                forall|w: int|
                    0 <= w < n ==> #[trigger] indeg@[w] == pending(src@, dst@, done@, w, 0, c as int)
                        + pending(src@, dst@, done_old, w, c as int, m as int),
                ready@.no_duplicates(),
                forall|k: int|
                    0 <= k < ready@.len() ==> (#[trigger] ready@[k]) < n && !done@[ready@[k] as int]
                        && indeg@[ready@[k] as int] == 0,
                forall|w: int|
                    0 <= w < n && !(#[trigger] done@[w]) && indeg@[w] == 0 ==> ready@.contains(
                        w as usize,
                    ),
            decreases m - c,
        {
            let ghost indeg_old = indeg@;
            let ghost ready_mid = ready@;
            proof {
                assert forall|w: int| 0 <= w < n implies pending(
                    src@,
                    dst@,
                    done_old,
                    w,
                    c as int,
                    m as int,
                ) == pending(src@, dst@, done_old, w, c + 1, m as int) + if blocks(
                    src@,
                    dst@,
                    done_old,
                    c as int,
                    w,
                ) {
                    1nat
                } else {
                    0nat
                } by {
                    lemma_pending_split(src@, dst@, done_old, w, c as int, c + 1, m as int);
                    assert(pending(src@, dst@, done_old, w, c as int, c as int) == 0);
                }
            }
            if src[c] == v {
                let t = dst[c];
                if t < n {
                    assert(blocks(src@, dst@, done_old, c as int, t as int));
                    assert(t != v);
                    assert(!done_old[t as int]);
                    let lowered = indeg[t] - 1;
                    indeg.set(t, lowered);
                    if lowered == 0 {
                        ready.push(t);
                        proof {
                            assert(!ready_mid.contains(t)) by {
                                if ready_mid.contains(t) {
                                    let k = choose|k: int| 0 <= k < ready_mid.len() && ready_mid[k] == t;
                                    assert(indeg_old[ready_mid[k] as int] == 0);
                                }
                            }
                            assert(ready@[ready_mid.len() as int] == t);
                            assert forall|a: int, b: int|
                                0 <= a < ready@.len() && 0 <= b < ready@.len() && a != b implies ready@[a]
                                != ready@[b] by {
                                if a < ready_mid.len() {
                                    assert(ready_mid.contains(ready@[a]));
                                }
                                if b < ready_mid.len() {
                                    assert(ready_mid.contains(ready@[b]));
                                }
                            }
                        }
                    }
                    proof {
                        assert forall|k: int| 0 <= k < ready@.len() implies (#[trigger] ready@[k]) < n
                            && !done@[ready@[k] as int] && indeg@[ready@[k] as int] == 0 by {
                            if k < ready_mid.len() {
                                assert(ready@[k] == ready_mid[k]);
                                assert(indeg_old[ready_mid[k] as int] == 0);
                                assert(ready_mid[k] != t);
                            }
                        }
                        assert forall|w: int|
                            0 <= w < n && !(#[trigger] done@[w]) && indeg@[w] == 0 implies ready@.contains(
                            w as usize,
                        ) by {
                            if w == t {
                                assert(ready@[ready_mid.len() as int] == t);
                            } else {
                                assert(indeg_old[w] == 0);
                                let k = choose|k: int| 0 <= k < ready_mid.len() && ready_mid[k] == w as usize;
                                assert(ready@[k] == w as usize);
                            }
                        }
                    }
                }
            }
            proof {
                assert forall|w: int| 0 <= w < n implies #[trigger] indeg@[w] == pending(
                    src@,
                    dst@,
                    done@,
                    w,
                    0,
                    c + 1,
                ) + pending(src@, dst@, done_old, w, c + 1, m as int) by {
                    assert(blocks(src@, dst@, done@, c as int, w) == (blocks(
                        src@,
                        dst@,
                        done_old,
                        c as int,
                        w,
                    ) && src@[c as int] != v));
                }
                assert(ready@ =~= ready_old.drop_last() + released(src@, dst@, done_old, v, c + 1));
            }
            c = c + 1;
        }
        proof {
            assert(done_old =~= done_of(emitted_old, n as int));
            assert(v == ready_old.last());
            assert forall|w: int| 0 <= w < n implies #[trigger] indeg@[w] == pending(
                src@,
                dst@,
                done@,
                w,
                0,
                m as int,
            ) by {
                assert(pending(src@, dst@, done_old, w, m as int, m as int) == 0);
            }
            assert forall|u: int| 0 <= u < n implies (#[trigger] done@[u] <==> emitted@.contains(
                u as usize,
            )) by {
                if u == v {
                    assert(emitted@[emitted_old.len() as int] == v);
                } else {
                    if done_old[u] {
                        let k = choose|k: int| 0 <= k < emitted_old.len() && emitted_old[k] == u as usize;
                        assert(emitted@[k] == u as usize);
                    }
                    if emitted@.contains(u as usize) {
                        let k = choose|k: int| 0 <= k < emitted@.len() && emitted@[k] == u as usize;
                        assert(k < emitted_old.len());
                        assert(emitted_old[k] == u as usize);
                    }
                }
            }
            assert forall|e: int|
                0 <= e < dst@.len() && #[trigger] dst@[e] < n && done@[dst@[e] as int] implies src@[e] < n
                && before(emitted@, src@[e], dst@[e]) by {
                if dst@[e] == v {
                    assert(!blocks(src@, dst@, done_old, e, v as int));
                    assert(done_old[src@[e] as int]);
                    let k = choose|k: int| 0 <= k < emitted_old.len() && emitted_old[k] == src@[e];
                    assert(emitted@[k] == src@[e]);
                    assert(emitted@[emitted_old.len() as int] == dst@[e]);
                } else {
                    assert(done_old[dst@[e] as int]);
                    let (a, b) = choose|a: int, b: int|
                        0 <= a < b < emitted_old.len() && #[trigger] emitted_old[a] == src@[e]
                            && #[trigger] emitted_old[b] == dst@[e];
                    assert(emitted@[a] == src@[e]);
                    assert(emitted@[b] == dst@[e]);
                }
            }
        }
    }
    proof {
        assert forall|u: int| 0 <= u < n && !(#[trigger] done@[u]) implies pending(
            src@,
            dst@,
            done@,
            u,
            0,
            dst@.len() as int,
        ) > 0 by {
            if indeg@[u] == 0 {
                assert(ready@.contains(u as usize));
            }
        }
    }
    (emitted, done)
}


/// The index of the node that carries `name`.
pub open spec fn node_of(ids: Seq<Seq<char>>, name: Seq<char>) -> int {
    choose|k: int| 0 <= k < ids.len() && ids[k] == name
}

/// The first place of `order`, from `from` on, whose node is not done.
proof fn lemma_first_undone(
    ids: Seq<Seq<char>>,
    done: Seq<bool>,
    order: Seq<Seq<char>>,
    from: int,
    last: int,
) -> (p: int)
    requires
        0 <= from <= last < order.len(),
        !done[node_of(ids, order[last])],
        forall|i: int| 0 <= i < from ==> done[node_of(ids, #[trigger] order[i])],
    ensures
        0 <= p <= last,
        !done[node_of(ids, order[p])],
        forall|i: int| 0 <= i < p ==> done[node_of(ids, #[trigger] order[i])],
    decreases last - from,
{
    if !done[node_of(ids, order[from])] {
        from
    } else {
        lemma_first_undone(ids, done, order, from + 1, last)
    }
}

/// Where the sort has left a node behind, nothing is an execution order.
proof fn lemma_stuck(
    pipeline: PipelineData,
    src: Seq<usize>,
    dst: Seq<usize>,
    done: Seq<bool>,
    order: Seq<Seq<char>>,
    v: int,
)
    requires
        pipeline.unique_ids(),
        src.len() == pipeline.connections@.len(),
        dst.len() == pipeline.connections@.len(),
        forall|c: int|
            0 <= c < pipeline.connections@.len() ==> is_position(
                pipeline.node_ids(),
                (#[trigger] pipeline.connections@[c]).from@,
                src[c] as int,
            ) && is_position(pipeline.node_ids(), pipeline.connections@[c].to@, dst[c] as int),
        done.len() == pipeline.nodes@.len(),
        forall|u: int|
            0 <= u < done.len() && !(#[trigger] done[u]) ==> pending(
                src,
                dst,
                done,
                u,
                0,
                dst.len() as int,
            ) > 0,
        0 <= v < done.len(),
        !done[v],
    ensures
        !pipeline.is_execution_order(order),
{
    if !pipeline.is_execution_order(order) {
        return ;
    }
    let ids = pipeline.node_ids();
    let n = ids.len() as int;
    assert(ids[v] == pipeline.nodes@[v].id@);
    assert(order.contains(ids[v]));
    let q = choose|q: int| 0 <= q < order.len() && order[q] == ids[v];
    assert(node_of(ids, order[q]) == v);
    let p = lemma_first_undone(ids, done, order, 0, q);
    assert(pipeline.has_node(order[p]));
    let u = node_of(ids, order[p]);
    assert(0 <= u < n && ids[u] == order[p]);
    let e = lemma_pending_positive(src, dst, done, u, 0, dst.len() as int);
    let connection = pipeline.connections@[e];
    assert(is_position(ids, connection.to@, dst[e] as int));
    assert(connection.to@ == ids[u]);
    assert(pipeline.has_node(connection.to@));
    assert(precedes(order, connection.from@, connection.to@));
    let (i, j) = choose|i: int, j: int|
        0 <= i < j < order.len() && #[trigger] order[i] == connection.from@ && #[trigger] order[j]
            == connection.to@;
    assert(j == p);
    assert(done[node_of(ids, order[i])]);
    assert(pipeline.has_node(order[i]));
    let s = node_of(ids, order[i]);
    assert(0 <= s < n && ids[s] == connection.from@);
    assert(is_position(ids, connection.from@, src[e] as int));
    assert(src[e] == s);
}

/// Where two nodes share an id, nothing is an execution order.
proof fn lemma_shared_id(pipeline: PipelineData, order: Seq<Seq<char>>)
    requires
        !pipeline.unique_ids(),
    ensures
        !pipeline.is_execution_order(order),
{
    if !pipeline.is_execution_order(order) {
        return ;
    }
    let ids = pipeline.node_ids();
    order.unique_seq_to_set();
    ids.lemma_cardinality_of_set();
    if ids.to_set().len() == ids.len() {
        ids.lemma_no_dup_set_cardinality();
    }
    assert(order.to_set().subset_of(ids.to_set())) by {
        assert forall|x: Seq<char>| order.to_set().contains(x) implies ids.to_set().contains(x) by {
            let i = choose|i: int| 0 <= i < order.len() && order[i] == x;
            assert(pipeline.has_node(order[i]));
        }
    }
    vstd::seq_lib::seq_to_set_is_finite(ids);
    vstd::set_lib::lemma_len_subset(order.to_set(), ids.to_set());
}

/// The place of `name` in `order`.
pub open spec fn place_of(order: Seq<Seq<char>>, name: Seq<char>) -> int {
    choose|i: int| 0 <= i < order.len() && order[i] == name
}

/// Along a circle the places in an execution order would have to rise without
/// end: the node that connection `k` of `walk` leads to stands after the node
/// that the first connection comes from.
proof fn lemma_places_rise(pipeline: PipelineData, walk: Seq<int>, order: Seq<Seq<char>>, k: int)
    requires
        pipeline.is_cycle(walk),
        pipeline.is_execution_order(order),
        0 <= k < walk.len(),
    ensures
        place_of(order, pipeline.connections@[walk[0]].from@) < place_of(
            order,
            pipeline.connections@[walk[k]].to@,
        ),
        0 <= place_of(order, pipeline.connections@[walk[k]].to@) < order.len(),
        order[place_of(order, pipeline.connections@[walk[k]].to@)] == pipeline.connections@[walk[k]].to@,
    decreases k,
{
    let connection = pipeline.connections@[walk[k]];
    assert(pipeline.has_node(connection.to@));
    assert(precedes(order, connection.from@, connection.to@));
    let (i, j) = choose|i: int, j: int|
        0 <= i < j < order.len() && #[trigger] order[i] == connection.from@ && #[trigger] order[j]
            == connection.to@;
    assert(place_of(order, connection.to@) == j);
    assert(place_of(order, connection.from@) == i);
    if k > 0 {
        lemma_places_rise(pipeline, walk, order, k - 1);
        assert(pipeline.connections@[walk[k - 1]].to@ == connection.from@);
    }
}

/// A pipeline whose connections run in a circle has no execution order.
pub proof fn lemma_cycle_excludes_order(
    pipeline: PipelineData,
    walk: Seq<int>,
    order: Seq<Seq<char>>,
)
    requires
        pipeline.is_cycle(walk),
    ensures
        !pipeline.is_execution_order(order),
{
    if pipeline.is_execution_order(order) {
        lemma_places_rise(pipeline, walk, order, walk.len() - 1);
    }
}

/// In an execution order of a pipeline whose connections all lead to nodes,
/// every connection comes from a node that stands before the node it leads to.
pub proof fn lemma_order_respects_connections(pipeline: PipelineData, order: Seq<Seq<char>>)
    requires
        pipeline.is_execution_order(order),
        forall|c: int|
            0 <= c < pipeline.connections@.len() ==> pipeline.has_node(
                (#[trigger] pipeline.connections@[c]).to@,
            ),
    ensures
        forall|c: int|
            0 <= c < pipeline.connections@.len() ==> precedes(
                order,
                (#[trigger] pipeline.connections@[c]).from@,
                pipeline.connections@[c].to@,
            ),
{
}

/// A pipeline that has an execution order has distinct ids, no connection
/// into a node from outside the pipeline, and no circle.
pub proof fn lemma_order_needs_sound_graph(pipeline: PipelineData, order: Seq<Seq<char>>)
    requires
        pipeline.is_execution_order(order),
    ensures
        pipeline.unique_ids(),
        pipeline.sources_exist(),
        !pipeline.has_cycle(),
{
    if !pipeline.unique_ids() {
        lemma_shared_id(pipeline, order);
    }
    assert forall|c: int|
        0 <= c < pipeline.connections@.len() && pipeline.has_node(
            (#[trigger] pipeline.connections@[c]).to@,
        ) implies pipeline.has_node(pipeline.connections@[c].from@) by {
        let connection = pipeline.connections@[c];
        assert(precedes(order, connection.from@, connection.to@));
        let (i, j) = choose|i: int, j: int|
            0 <= i < j < order.len() && #[trigger] order[i] == connection.from@ && #[trigger] order[j]
                == connection.to@;
        assert(pipeline.has_node(order[i]));
    }
    if pipeline.has_cycle() {
        let walk = choose|walk: Seq<int>| pipeline.is_cycle(walk);
        lemma_cycle_excludes_order(pipeline, walk, order);
    }
}

/// From a node that the sort left behind, `steps` connections followed
/// backwards through nodes that were left behind. `trail.0[i + 1]` is the node
/// that connection `trail.1[i]` comes from, and `trail.0[i]` the node it leads
/// to.
proof fn lemma_trail(
    pipeline: PipelineData,
    src: Seq<usize>,
    dst: Seq<usize>,
    done: Seq<bool>,
    v: usize,
    steps: nat,
) -> (trail: (Seq<usize>, Seq<int>))
    requires
        pipeline.sources_exist(),
        src.len() == pipeline.connections@.len(),
        dst.len() == pipeline.connections@.len(),
        forall|c: int|
            0 <= c < pipeline.connections@.len() ==> is_position(
                pipeline.node_ids(),
                (#[trigger] pipeline.connections@[c]).from@,
                src[c] as int,
            ) && is_position(pipeline.node_ids(), pipeline.connections@[c].to@, dst[c] as int),
        done.len() == pipeline.nodes@.len(),
        forall|u: int|
            0 <= u < done.len() && !(#[trigger] done[u]) ==> pending(
                src,
                dst,
                done,
                u,
                0,
                dst.len() as int,
            ) > 0,
        v < done.len(),
        !done[v as int],
    ensures
        trail.0.len() == steps + 1,
        trail.1.len() == steps,
        forall|i: int| 0 <= i <= steps ==> (#[trigger] trail.0[i]) < done.len() && !done[trail.0[i] as int],
        forall|i: int|
            0 <= i < steps ==> 0 <= (#[trigger] trail.1[i]) < dst.len() && dst[trail.1[i]] == trail.0[i]
                && src[trail.1[i]] == trail.0[i + 1],
    decreases steps,
{
    if steps == 0 {
        (seq![v], Seq::<int>::empty())
    } else {
        let shorter = lemma_trail(pipeline, src, dst, done, v, (steps - 1) as nat);
        let u = shorter.0[steps - 1];
        let e = lemma_pending_positive(src, dst, done, u as int, 0, dst.len() as int);
        let connection = pipeline.connections@[e];
        let ids = pipeline.node_ids();
        assert(is_position(ids, connection.to@, dst[e] as int));
        assert(ids[u as int] == connection.to@);
        assert(pipeline.has_node(connection.to@));
        assert(pipeline.has_node(connection.from@));
        assert(is_position(ids, connection.from@, src[e] as int));
        assert(src[e] < done.len()) by {
            let k = choose|k: int| 0 <= k < ids.len() && ids[k] == connection.from@;
            assert(ids[k] == connection.from@);
        }
        (shorter.0.push(src[e]), shorter.1.push(e))
    }
}

/// Where the sort has left a node behind although every connection into a
/// node comes from a node, some connections run in a circle.
proof fn lemma_stuck_on_cycle(
    pipeline: PipelineData,
    src: Seq<usize>,
    dst: Seq<usize>,
    done: Seq<bool>,
    v: usize,
)
    requires
        pipeline.sources_exist(),
        pipeline.nodes@.len() <= usize::MAX,
        src.len() == pipeline.connections@.len(),
        dst.len() == pipeline.connections@.len(),
        forall|c: int|
            0 <= c < pipeline.connections@.len() ==> is_position(
                pipeline.node_ids(),
                (#[trigger] pipeline.connections@[c]).from@,
                src[c] as int,
            ) && is_position(pipeline.node_ids(), pipeline.connections@[c].to@, dst[c] as int),
        done.len() == pipeline.nodes@.len(),
        forall|u: int|
            0 <= u < done.len() && !(#[trigger] done[u]) ==> pending(
                src,
                dst,
                done,
                u,
                0,
                dst.len() as int,
            ) > 0,
        v < done.len(),
        !done[v as int],
    ensures
        pipeline.has_cycle(),
{
    let n = pipeline.nodes@.len();
    let ids = pipeline.node_ids();
    let (visited, taken) = lemma_trail(pipeline, src, dst, done, v, n);
    if visited.no_duplicates() {
        lemma_distinct_indices(visited, n as int);
    }
    let (a, b) = choose|a: int, b: int|
        0 <= a < visited.len() && 0 <= b < visited.len() && a != b && visited[a] == visited[b];
    let lo = if a < b { a } else { b };
    let hi = if a < b { b } else { a };
    let walk = Seq::new((hi - lo) as nat, |k: int| taken[hi - 1 - k]);
    assert forall|k: int| 0 <= k < walk.len() implies 0 <= #[trigger] walk[k]
        < pipeline.connections@.len() && pipeline.connections@[walk[k]].to@ == ids[visited[hi - 1
        - k] as int] && pipeline.connections@[walk[k]].from@ == ids[visited[hi - k] as int] by {
        let e = taken[hi - 1 - k];
        assert(dst[e] == visited[hi - 1 - k]);
        assert(src[e] == visited[hi - 1 - k + 1]);
        assert(is_position(ids, pipeline.connections@[e].to@, dst[e] as int));
        assert(is_position(ids, pipeline.connections@[e].from@, src[e] as int));
    }
    assert forall|k: int| 0 <= k < walk.len() implies pipeline.has_node(
        pipeline.connections@[#[trigger] walk[k]].to@,
    ) by {
        assert(ids[visited[hi - 1 - k] as int] == pipeline.connections@[walk[k]].to@);
    }
    assert forall|k: int| 0 <= k < walk.len() - 1 implies pipeline.connections@[#[trigger] walk[k]].to@
        == pipeline.connections@[walk[k + 1]].from@ by {
        assert(pipeline.connections@[walk[k + 1]].from@ == ids[visited[hi - (k + 1)] as int]);
    }
    assert(pipeline.connections@[walk[walk.len() - 1]].to@ == ids[visited[lo] as int]);
    assert(pipeline.connections@[walk[0]].from@ == ids[visited[hi] as int]);
    assert(pipeline.is_cycle(walk));
}

/// Where each connection comes from: the place of the node, or the number
/// of nodes where it comes from none.
pub open spec fn sources(pipeline: PipelineData) -> Seq<usize> {
    Seq::new(
        pipeline.connections@.len(),
        |c: int| position_of(pipeline.node_ids(), pipeline.connections@[c].from@) as usize,
    )
}

/// Where each connection leads to: the place of the node, or the number of
/// nodes where it leads to none.
pub open spec fn targets(pipeline: PipelineData) -> Seq<usize> {
    Seq::new(
        pipeline.connections@.len(),
        |c: int| position_of(pipeline.node_ids(), pipeline.connections@[c].to@) as usize,
    )
}

/// The processing order of a pipeline that has one: the ids of its nodes in
/// the order in which the sort emits them.
pub open spec fn processing_order(pipeline: PipelineData) -> Seq<Seq<char>> {
    let places = sorted_indices(
        pipeline.nodes@.len() as int,
        sources(pipeline),
        targets(pipeline),
    );
    Seq::new(places.len(), |k: int| pipeline.node_ids()[places[k] as int])
}

/// Puts the nodes of `pipeline` into an order in which every node comes after
/// the nodes that it consumes from. Succeeds exactly when such an order
/// exists; otherwise the connections run in a circle, or lean on something
/// that is no node, and the failure is `CircularDependency`. Among several
/// orders the pipeline always gets the same one, `processing_order`; callers
/// do well to rely on no more than that it is an execution order.
pub fn execution_order(pipeline: &PipelineData) -> (result: Result<Vec<String>, PipelineError>)
    ensures
        match result {
            Ok(order) => pipeline.is_execution_order(views(order@)) && views(order@)
                == processing_order(*pipeline),
            Err(error) => error@ == Failure::CircularDependency && forall|
                order: Seq<Seq<char>>,
            | !pipeline.is_execution_order(order),
        },
        result is Ok <==> pipeline.unique_ids() && pipeline.sources_exist() && !pipeline.has_cycle(),
{
    let n = pipeline.nodes.len();
    let m = pipeline.connections.len();
    let ghost ids = pipeline.node_ids();
    if !ids_are_unique(&pipeline.nodes) {
        proof {
            assert forall|order: Seq<Seq<char>>| !pipeline.is_execution_order(order) by {
                lemma_shared_id(*pipeline, order);
            }
        }
        return Err(PipelineError::CircularDependency);
    }
    let mut src: Vec<usize> = Vec::new();
    let mut dst: Vec<usize> = Vec::new();
    let mut c: usize = 0;
    while c < m
        invariant
            c <= m,
            m == pipeline.connections@.len(),
            ids == pipeline.node_ids(),
            src@.len() == c,
            dst@.len() == c,
            forall|e: int|
                0 <= e < c ==> is_position(ids, (#[trigger] pipeline.connections@[e]).from@, src@[e] as int)
                    && is_position(ids, pipeline.connections@[e].to@, dst@[e] as int),
            forall|e: int|
                0 <= e < c ==> src@[e] == position_of(
                    ids,
                    (#[trigger] pipeline.connections@[e]).from@,
                ) && dst@[e] == position_of(ids, pipeline.connections@[e].to@),
        decreases m - c,
    {
        let connection = &pipeline.connections[c];
        src.push(position(&pipeline.nodes, connection.from.as_str()));
        dst.push(position(&pipeline.nodes, connection.to.as_str()));
        c = c + 1;
    }
    proof {
        assert(src@ =~= sources(*pipeline));
        assert(dst@ =~= targets(*pipeline));
    }
    let (emitted, done) = sort_indices(n, &src, &dst);
    proof {
        lemma_distinct_indices(emitted@, n as int);
    }
    if emitted.len() != n {
        proof {
            if forall|v: int| 0 <= v < n ==> done@[v] {
                assert forall|v: usize| v < n implies emitted@.contains(v) by {
                    assert(done@[v as int]);
                }
                assert(false);
            }
            let v = choose|v: int| 0 <= v < n && !done@[v];
            assert forall|order: Seq<Seq<char>>| !pipeline.is_execution_order(order) by {
                lemma_stuck(*pipeline, src@, dst@, done@, order, v);
            }
            if pipeline.sources_exist() {
                lemma_stuck_on_cycle(*pipeline, src@, dst@, done@, v as usize);
            }
        }
        return Err(PipelineError::CircularDependency);
    }
    let mut order: Vec<String> = Vec::new();
    let mut i: usize = 0;
    while i < n
        invariant
            i <= n,
            n == pipeline.nodes@.len(),
            emitted@.len() == n,
            forall|k: int| 0 <= k < n ==> (#[trigger] emitted@[k]) < n,
            order@.len() == i,
            forall|k: int| 0 <= k < i ==> (#[trigger] order@[k])@ == pipeline.nodes@[emitted@[k] as int].id@,
        decreases n - i,
    {
        order.push(pipeline.nodes[emitted[i]].id.clone());
        i = i + 1;
    }
    proof {
        let o = views(order@);
        assert forall|k: int| 0 <= k < n implies #[trigger] o[k] == ids[emitted@[k] as int] by {
            assert(o[k] == order@[k]@);
        }
        assert(o.no_duplicates()) by {
            assert forall|a: int, b: int| 0 <= a < o.len() && 0 <= b < o.len() && a != b implies o[a]
                != o[b] by {
                assert(emitted@[a] != emitted@[b]);
            }
        }
        assert forall|k: int| 0 <= k < o.len() implies pipeline.has_node(#[trigger] o[k]) by {
            assert(ids[emitted@[k] as int] == o[k]);
        }
        assert forall|k: int| 0 <= k < pipeline.nodes@.len() implies o.contains(
            #[trigger] pipeline.nodes@[k].id@,
        ) by {
            assert(emitted@.contains(k as usize));
            let a = choose|a: int| 0 <= a < emitted@.len() && emitted@[a] == k as usize;
            assert(o[a] == ids[k]);
        }
        assert forall|e: int|
            0 <= e < pipeline.connections@.len() && pipeline.has_node(
                (#[trigger] pipeline.connections@[e]).to@,
            ) implies precedes(o, pipeline.connections@[e].from@, pipeline.connections@[e].to@) by {
            let connection = pipeline.connections@[e];
            assert(is_position(ids, connection.to@, dst@[e] as int));
            assert(dst@[e] < n);
            assert(emitted@.contains(dst@[e]));
            assert(done@[dst@[e] as int]);
            assert(before(emitted@, src@[e], dst@[e]));
            let (a, b) = choose|a: int, b: int|
                0 <= a < b < emitted@.len() && #[trigger] emitted@[a] == src@[e] && #[trigger] emitted@[b]
                    == dst@[e];
            assert(is_position(ids, connection.from@, src@[e] as int));
            assert(o[a] == connection.from@);
            assert(o[b] == connection.to@);
        }
        lemma_order_needs_sound_graph(*pipeline, o);
        assert(o =~= processing_order(*pipeline));
    }
    Ok(order)
}

} // verus!
