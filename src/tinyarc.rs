//! Reference-counted nodes with an intrusive doubly linked list.
//!
//! An `ArcList<T>` holds a set of nodes. Each node carries a value, a strong
//! count and the two links of the list, so linking a node never allocates.
//! A `TinyArc` is one owning handle on a node. The list itself owns one share
//! of every node it links: inserting a node consumes a handle, and detaching
//! it gives that share up.
use vstd::prelude::*;

verus! {

/// The control block of one node: its value, its strong count and its links.
pub struct ArcInner<T> {
    value: Option<T>,
    strong: usize,
    prev: Option<usize>,
    next: Option<usize>,
    linked: bool,
}

/// An owning handle on the node `index()` of an `ArcList`.
pub struct TinyArc {
    index: usize,
    owner: Ghost<int>,
}

impl TinyArc {
    pub closed spec fn node(&self) -> int {
        self.index as int
    }

    pub closed spec fn owner(&self) -> int {
        self.owner@
    }

    /// The node this handle owns a share of.
    pub fn index(&self) -> (r: usize)
        ensures
            r == self.node(),
    {
        self.index
    }
}

/// The entries of `s` are pairwise distinct.
pub open spec fn distinct(s: Seq<usize>) -> bool {
    forall|i: int, j: int| 0 <= i < s.len() && 0 <= j < s.len() && i != j ==> s[i] != s[j]
}

/// The position of `x` in `s`.
pub open spec fn position(s: Seq<usize>, x: usize) -> int
    recommends
        s.contains(x),
{
    choose|k: int| 0 <= k < s.len() && s[k] == x
}

/// The list after linking `x` right behind `at`.
pub open spec fn inserted_after(s: Seq<usize>, at: usize, x: usize) -> Seq<usize> {
    s.insert(position(s, at) + 1, x)
}

/// The list after unlinking `x`.
pub open spec fn detached(s: Seq<usize>, x: usize) -> Seq<usize> {
    s.remove(position(s, x))
}

proof fn lemma_insert_order(o: Seq<usize>, p: int, x: usize)
    requires
        distinct(o),
        0 <= p < o.len(),
        !o.contains(x),
    ensures
        o.insert(p + 1, x).len() == o.len() + 1,
        distinct(o.insert(p + 1, x)),
        forall|k: int| 0 <= k <= p ==> #[trigger] o.insert(p + 1, x)[k] == o[k],
        o.insert(p + 1, x)[p + 1] == x,
        forall|k: int| p + 1 < k < o.len() + 1 ==> #[trigger] o.insert(p + 1, x)[k] == o[k - 1],
        forall|y: usize| #[trigger] o.insert(p + 1, x).contains(y) <==> (o.contains(y) || y == x),
        position(o, o[p]) == p,
{
    let o2 = o.insert(p + 1, x);
    assert forall|i: int, j: int| 0 <= i < o2.len() && 0 <= j < o2.len() && i != j implies o2[i] != o2[j] by {
        if i != p + 1 && j != p + 1 {
            let i0 = if i < p + 1 { i } else { i - 1 };
            let j0 = if j < p + 1 { j } else { j - 1 };
            assert(o2[i] == o[i0] && o2[j] == o[j0]);
        } else if i == p + 1 {
            let j0 = if j < p + 1 { j } else { j - 1 };
            assert(o2[j] == o[j0]);
        } else {
            let i0 = if i < p + 1 { i } else { i - 1 };
            assert(o2[i] == o[i0]);
        }
    }
    assert forall|y: usize| #[trigger] o2.contains(y) <==> (o.contains(y) || y == x) by {
        if o2.contains(y) {
            let k = choose|k: int| 0 <= k < o2.len() && o2[k] == y;
            if k < p + 1 {
                assert(o[k] == y);
            } else if k > p + 1 {
                assert(o[k - 1] == y);
            }
        }
        if o.contains(y) {
            let k = choose|k: int| 0 <= k < o.len() && o[k] == y;
            if k <= p {
                assert(o2[k] == y);
            } else {
                assert(o2[k + 1] == y);
            }
        }
        if y == x {
            assert(o2[p + 1] == y);
        }
    }
    let q = position(o, o[p]);
    assert(0 <= q < o.len() && o[q] == o[p]);
}

/// The links of the nodes in `o` chain them in that order, and `first` and
/// `last` are the two ends.
pub closed spec fn links_wf<T>(nodes: Seq<ArcInner<T>>, first: Option<usize>, last: Option<usize>, o: Seq<usize>) -> bool {
    &&& forall|k: int| #![trigger o[k]] 0 <= k < o.len() ==> nodes[o[k] as int].next == if k + 1 < o.len() {
        Some(o[k + 1])
    } else {
        None
    }
    &&& forall|k: int| #![trigger o[k]] 0 <= k < o.len() ==> nodes[o[k] as int].prev == if k > 0 {
        Some(o[k - 1])
    } else {
        None
    }
    &&& first == if o.len() > 0 {
        Some(o[0])
    } else {
        None
    }
    &&& last == if o.len() > 0 {
        Some(o[o.len() - 1])
    } else {
        None
    }
}

/// The well-formedness of a node set whose list runs through `o`.
pub closed spec fn wf_parts<T>(nodes: Seq<ArcInner<T>>, first: Option<usize>, last: Option<usize>, o: Seq<usize>) -> bool {
    &&& nodes.len() <= usize::MAX
    &&& distinct(o)
    &&& forall|k: int| 0 <= k < o.len() ==> o[k] < nodes.len()
    &&& forall|i: int| #![trigger nodes[i]]
        0 <= i < nodes.len() ==> (nodes[i].linked <==> o.contains(i as usize))
    &&& forall|i: int| #![trigger nodes[i]]
        0 <= i < nodes.len() ==> (nodes[i].value is Some <==> nodes[i].strong > 0)
    &&& forall|i: int| #![trigger nodes[i]]
        0 <= i < nodes.len() && nodes[i].linked ==> nodes[i].strong > 0
    &&& links_wf(nodes, first, last, o)
}

/// `n1` is `n0` with `x` linked between `a` and `nxt`.
spec fn insert_shape<T>(n0: Seq<ArcInner<T>>, n1: Seq<ArcInner<T>>, a: usize, x: usize, nxt: Option<usize>) -> bool {
    &&& n1.len() == n0.len()
    &&& n1[x as int] == ArcInner { prev: Some(a), next: nxt, linked: true, ..n0[x as int] }
    &&& n1[a as int] == ArcInner { next: Some(x), ..n0[a as int] }
    &&& nxt is Some ==> n1[nxt->0 as int] == ArcInner { prev: Some(x), ..n0[nxt->0 as int] }
    &&& forall|i: int| #![trigger n1[i]] 0 <= i < n1.len() && i != x && i != a && (nxt is None || i != nxt->0)
        ==> n1[i] == n0[i]
}

proof fn lemma_insert_flags<T>(n0: Seq<ArcInner<T>>, first: Option<usize>, last: Option<usize>, o: Seq<usize>, p: int, x: usize, n1: Seq<ArcInner<T>>)
    requires
        wf_parts(n0, first, last, o),
        0 <= p < o.len(),
        x < n0.len(),
        !n0[x as int].linked,
        n0[x as int].strong > 0,
        insert_shape(n0, n1, o[p], x, n0[o[p] as int].next),
    ensures
        forall|i: int| #![trigger n1[i]] 0 <= i < n1.len() ==> (n1[i].linked <==> o.insert(p + 1, x).contains(i as usize)),
        forall|i: int| #![trigger n1[i]] 0 <= i < n1.len() ==> (n1[i].value is Some <==> n1[i].strong > 0),
        forall|i: int| #![trigger n1[i]] 0 <= i < n1.len() && n1[i].linked ==> n1[i].strong > 0,
{
    let a = o[p];
    let nxt = n0[a as int].next;
    assert(!o.contains(x));
    lemma_insert_order(o, p, x);
    assert(nxt is Some ==> nxt->0 == o[p + 1]);
    if p + 1 < o.len() {
        assert(o[p] != o[p + 1]);
    }
    assert forall|i: int| #![trigger n1[i]] 0 <= i < n1.len() implies (n1[i].linked <==> o.insert(p + 1, x).contains(i as usize))
        && (n1[i].value is Some <==> n1[i].strong > 0) && (n1[i].linked ==> n1[i].strong > 0) by {
        assert(n0[i].linked <==> o.contains(i as usize));
        if i == a {
            assert(o.contains(a));
        } else if nxt is Some && i == nxt->0 {
            assert(o.contains(o[p + 1]));
        }
    }
}

proof fn lemma_insert_links<T>(n0: Seq<ArcInner<T>>, first: Option<usize>, last: Option<usize>, o: Seq<usize>, p: int, x: usize, n1: Seq<ArcInner<T>>, last1: Option<usize>)
    requires
        wf_parts(n0, first, last, o),
        0 <= p < o.len(),
        x < n0.len(),
        !n0[x as int].linked,
        insert_shape(n0, n1, o[p], x, n0[o[p] as int].next),
        n0[o[p] as int].next is Some ==> last1 == last,
        n0[o[p] as int].next is None ==> last1 == Some(x),
    ensures
        links_wf(n1, first, last1, o.insert(p + 1, x)),
{
    let a = o[p];
    let o2 = o.insert(p + 1, x);
    assert(!o.contains(x));
    lemma_insert_order(o, p, x);
    let nxt = n0[a as int].next;
    assert(nxt is Some <==> p + 1 < o.len());
    assert(nxt is Some ==> nxt->0 == o[p + 1]);
    assert(a != x);
    if p + 1 < o.len() {
        assert(o[p] != o[p + 1]);
        assert(o[p + 1] != x);
    }
    assert forall|k: int| #![trigger o2[k]] 0 <= k < o2.len() implies n1[o2[k] as int].next == if k + 1 < o2.len() {
        Some(o2[k + 1])
    } else {
        None
    } by {
        if k < p {
            assert(o[k] != x && o[k] != a);
            if p + 1 < o.len() {
                assert(o[k] != o[p + 1]);
            }
            assert(o2[k + 1] == o[k + 1]);
        } else if k > p + 1 {
            assert(o[k - 1] != x && o[k - 1] != a);
            if k + 1 < o2.len() {
                assert(o2[k + 1] == o[k]);
            }
        } else if k == p + 1 {
            if k + 1 < o2.len() {
                assert(o2[k + 1] == o[p + 1]);
            }
        }
    }
    assert forall|k: int| #![trigger o2[k]] 0 <= k < o2.len() implies n1[o2[k] as int].prev == if k > 0 {
        Some(o2[k - 1])
    } else {
        None
    } by {
        if k < p {
            assert(o[k] != x && o[k] != a);
            if p + 1 < o.len() {
                assert(o[k] != o[p + 1]);
            }
        } else if k == p + 2 {
            assert(o2[k] == o[p + 1]);
        } else if k > p + 2 {
            assert(o[k - 1] != x && o[k - 1] != a);
            assert(o[k - 1] != o[p + 1]);
            assert(o2[k - 1] == o[k - 2]);
        }
    }
    if o2.len() > 0 {
        assert(o2[o2.len() - 1] == if p + 1 < o.len() { o[o.len() - 1] } else { x });
    }
}

proof fn lemma_insert_wf<T>(n0: Seq<ArcInner<T>>, first: Option<usize>, last: Option<usize>, o: Seq<usize>, p: int, x: usize, n1: Seq<ArcInner<T>>, last1: Option<usize>)
    requires
        wf_parts(n0, first, last, o),
        0 <= p < o.len(),
        x < n0.len(),
        !n0[x as int].linked,
        n0[x as int].strong > 0,
        insert_shape(n0, n1, o[p], x, n0[o[p] as int].next),
        n0[o[p] as int].next is Some ==> last1 == last,
        n0[o[p] as int].next is None ==> last1 == Some(x),
    ensures
        wf_parts(n1, first, last1, o.insert(p + 1, x)),
{
    assert(!o.contains(x));
    lemma_insert_order(o, p, x);
    lemma_insert_flags(n0, first, last, o, p, x, n1);
    lemma_insert_links(n0, first, last, o, p, x, n1, last1);
}

proof fn lemma_remove_order(o: Seq<usize>, p: int)
    requires
        distinct(o),
        0 <= p < o.len(),
    ensures
        o.remove(p).len() == o.len() - 1,
        distinct(o.remove(p)),
        forall|k: int| 0 <= k < p ==> #[trigger] o.remove(p)[k] == o[k],
        forall|k: int| p <= k < o.len() - 1 ==> #[trigger] o.remove(p)[k] == o[k + 1],
        forall|y: usize| #[trigger] o.remove(p).contains(y) <==> (o.contains(y) && y != o[p]),
        position(o, o[p]) == p,
{
    let o2 = o.remove(p);
    assert forall|i: int, j: int| 0 <= i < o2.len() && 0 <= j < o2.len() && i != j implies o2[i] != o2[j] by {
        let i0 = if i < p { i } else { i + 1 };
        let j0 = if j < p { j } else { j + 1 };
        assert(o2[i] == o[i0] && o2[j] == o[j0]);
    }
    assert forall|y: usize| #[trigger] o2.contains(y) <==> (o.contains(y) && y != o[p]) by {
        if o2.contains(y) {
            let k = choose|k: int| 0 <= k < o2.len() && o2[k] == y;
            let k0 = if k < p { k } else { k + 1 };
            assert(o[k0] == y);
        }
        if o.contains(y) && y != o[p] {
            let k = choose|k: int| 0 <= k < o.len() && o[k] == y;
            if k < p {
                assert(o2[k] == y);
            } else {
                assert(o2[k - 1] == y);
            }
        }
    }
    let q = position(o, o[p]);
    assert(0 <= q < o.len() && o[q] == o[p]);
}

/// `n1` is `n0` with `x` linked in front of the node `first`, if any.
spec fn push_front_shape<T>(n0: Seq<ArcInner<T>>, n1: Seq<ArcInner<T>>, x: usize, first: Option<usize>) -> bool {
    &&& n1.len() == n0.len()
    &&& n1[x as int] == ArcInner { prev: None, next: first, linked: true, ..n0[x as int] }
    &&& first is Some ==> n1[first->0 as int] == ArcInner { prev: Some(x), ..n0[first->0 as int] }
    &&& forall|i: int| #![trigger n1[i]] 0 <= i < n1.len() && i != x && (first is None || i != first->0)
        ==> n1[i] == n0[i]
}

proof fn lemma_push_front_wf<T>(n0: Seq<ArcInner<T>>, first: Option<usize>, last: Option<usize>, o: Seq<usize>, x: usize, n1: Seq<ArcInner<T>>, last1: Option<usize>)
    requires
        wf_parts(n0, first, last, o),
        x < n0.len(),
        !n0[x as int].linked,
        n0[x as int].strong > 0,
        push_front_shape(n0, n1, x, first),
        first is Some ==> last1 == last,
        first is None ==> last1 == Some(x),
    ensures
        wf_parts(n1, Some(x), last1, seq![x] + o),
{
    let o2 = seq![x] + o;
    assert(!o.contains(x));
    assert forall|k: int| 0 <= k < o.len() implies #[trigger] o2[k + 1] == o[k] by {}
    assert forall|y: usize| #[trigger] o2.contains(y) <==> (o.contains(y) || y == x) by {
        if o2.contains(y) {
            let k = choose|k: int| 0 <= k < o2.len() && o2[k] == y;
            if k > 0 {
                assert(o[k - 1] == y);
            }
        }
        if o.contains(y) {
            let k = choose|k: int| 0 <= k < o.len() && o[k] == y;
            assert(o2[k + 1] == y);
        }
        if y == x {
            assert(o2[0] == y);
        }
    }
    assert forall|i: int, j: int| 0 <= i < o2.len() && 0 <= j < o2.len() && i != j implies o2[i] != o2[j] by {
        if i > 0 && j > 0 {
            assert(o2[i] == o[i - 1] && o2[j] == o[j - 1]);
        } else if i == 0 {
            assert(o2[j] == o[j - 1]);
            assert(o.contains(o[j - 1]));
        } else {
            assert(o2[i] == o[i - 1]);
            assert(o.contains(o[i - 1]));
        }
    }
    assert(first is Some ==> first->0 == o[0] && first->0 != x);
    assert forall|i: int| #![trigger n1[i]] 0 <= i < n1.len() implies (n1[i].linked <==> o2.contains(i as usize))
        && (n1[i].value is Some <==> n1[i].strong > 0) && (n1[i].linked ==> n1[i].strong > 0) by {
        assert(n0[i].linked <==> o.contains(i as usize));
        if first is Some && i == first->0 {
            assert(o.contains(o[0]));
        }
    }
    assert forall|k: int| #![trigger o2[k]] 0 <= k < o2.len() implies n1[o2[k] as int].next == if k + 1 < o2.len() {
        Some(o2[k + 1])
    } else {
        None
    } && n1[o2[k] as int].prev == if k > 0 {
        Some(o2[k - 1])
    } else {
        None
    } by {
        if k > 0 {
            assert(o2[k] == o[k - 1]);
            assert(o[k - 1] != x);
            if k + 1 < o2.len() {
                assert(o2[k + 1] == o[k]);
            }
            if k > 1 {
                assert(o2[k - 1] == o[k - 2]);
                assert(o[k - 1] != o[0]);
            }
        } else if o.len() > 0 {
            assert(o2[1] == o[0]);
        }
    }
    if o.len() > 0 {
        assert(o2[o2.len() - 1] == o[o.len() - 1]);
    }
}

/// `n1` is `n0` with `x`, found between `prv` and `nxt`, unlinked and its list
/// share given up.
spec fn detach_shape<T>(n0: Seq<ArcInner<T>>, n1: Seq<ArcInner<T>>, x: usize, prv: Option<usize>, nxt: Option<usize>) -> bool {
    &&& n1.len() == n0.len()
    &&& n1[x as int] == ArcInner {
        prev: None,
        next: None,
        linked: false,
        strong: (n0[x as int].strong - 1) as usize,
        ..n0[x as int]
    }
    &&& prv is Some ==> n1[prv->0 as int] == ArcInner { next: nxt, ..n0[prv->0 as int] }
    &&& nxt is Some ==> n1[nxt->0 as int] == ArcInner { prev: prv, ..n0[nxt->0 as int] }
    &&& forall|i: int| #![trigger n1[i]] 0 <= i < n1.len() && i != x && (prv is None || i != prv->0) && (nxt is None || i != nxt->0)
        ==> n1[i] == n0[i]
}

proof fn lemma_detach_wf<T>(n0: Seq<ArcInner<T>>, first: Option<usize>, last: Option<usize>, o: Seq<usize>, p: int, n1: Seq<ArcInner<T>>, first1: Option<usize>, last1: Option<usize>)
    requires
        wf_parts(n0, first, last, o),
        0 <= p < o.len(),
        n0[o[p] as int].strong > 1,
        detach_shape(n0, n1, o[p], n0[o[p] as int].prev, n0[o[p] as int].next),
        first1 == if p == 0 { n0[o[p] as int].next } else { first },
        last1 == if p == o.len() - 1 { n0[o[p] as int].prev } else { last },
    ensures
        wf_parts(n1, first1, last1, o.remove(p)),
{
    let x = o[p];
    let o2 = o.remove(p);
    lemma_remove_order(o, p);
    let prv = n0[x as int].prev;
    let nxt = n0[x as int].next;
    assert(prv is Some <==> p > 0);
    assert(nxt is Some <==> p + 1 < o.len());
    if p > 0 {
        assert(prv->0 == o[p - 1] && o[p - 1] != x);
    }
    if p + 1 < o.len() {
        assert(nxt->0 == o[p + 1] && o[p + 1] != x);
    }
    if p > 0 && p + 1 < o.len() {
        assert(o[p - 1] != o[p + 1]);
    }
    assert forall|i: int| #![trigger n1[i]] 0 <= i < n1.len() implies (n1[i].linked <==> o2.contains(i as usize))
        && (n1[i].value is Some <==> n1[i].strong > 0) && (n1[i].linked ==> n1[i].strong > 0) by {
        assert(n0[i].linked <==> o.contains(i as usize));
        if prv is Some && i == prv->0 {
            assert(o.contains(o[p - 1]));
        }
        if nxt is Some && i == nxt->0 {
            assert(o.contains(o[p + 1]));
        }
    }
    assert forall|k: int| #![trigger o2[k]] 0 <= k < o2.len() implies n1[o2[k] as int].next == if k + 1 < o2.len() {
        Some(o2[k + 1])
    } else {
        None
    } && n1[o2[k] as int].prev == if k > 0 {
        Some(o2[k - 1])
    } else {
        None
    } by {
        if k < p {
            assert(o2[k] == o[k]);
            assert(o[k] != x);
            if k < p - 1 {
                assert(o[k] != o[p - 1]);
            }
            if p + 1 < o.len() {
                assert(o[k] != o[p + 1]);
            }
            if k + 1 < p {
                assert(o2[k + 1] == o[k + 1]);
            } else if k + 1 < o2.len() {
                assert(o2[k + 1] == o[p + 1]);
            }
            if k > 0 {
                assert(o2[k - 1] == o[k - 1]);
            }
        } else {
            assert(o2[k] == o[k + 1]);
            assert(o[k + 1] != x);
            if k > p {
                assert(o[k + 1] != o[p + 1]);
            }
            if p > 0 {
                assert(o[k + 1] != o[p - 1]);
            }
            if k + 1 < o2.len() {
                assert(o2[k + 1] == o[k + 2]);
            }
            if k > p {
                assert(o2[k - 1] == o[k]);
            } else if k > 0 {
                assert(o2[k - 1] == o[p - 1]);
            }
        }
    }
    if o2.len() > 0 {
        assert(o2[0] == if p == 0 { o[1] } else { o[0] });
        assert(o2[o2.len() - 1] == if p == o.len() - 1 { o[p - 1] } else { o[o.len() - 1] });
    }
}

/// One operation on the handles of a node.
pub enum ArcOp {
    Clone,
    Drop,
}

/// The strong count and the number of times the value was handed back, after
/// `ops` on a node with `count` handles and `released` earlier releases. An
/// operation needs a live handle; with none left it cannot happen.
pub open spec fn arc_run(count: nat, released: nat, ops: Seq<ArcOp>) -> (nat, nat)
    decreases ops.len(),
{
    if ops.len() == 0 {
        (count, released)
    } else {
        let (c, r) = arc_run(count, released, ops.drop_last());
        if c == 0 {
            (c, r)
        } else {
            match ops.last() {
                ArcOp::Clone => ((c + 1) as nat, r),
                ArcOp::Drop => ((c - 1) as nat, if c == 1 {
                    r + 1
                } else {
                    r
                }),
            }
        }
    }
}

/// Whatever clones and drops follow the creation of a node, its value is
/// handed back at most once, and it has been handed back exactly when no
/// handle is left.
pub proof fn lemma_released_once(ops: Seq<ArcOp>)
    ensures
        arc_run(1, 0, ops).1 <= 1,
        arc_run(1, 0, ops).1 == 1 <==> arc_run(1, 0, ops).0 == 0,
    decreases ops.len(),
{
    if ops.len() > 0 {
        lemma_released_once(ops.drop_last());
    }
}

/// Detaching a node right after linking it behind `at` gives back the list
/// as it was; linking it again then gives the same list as the first time.
pub proof fn lemma_detach_undoes_insert_after(o: Seq<usize>, at: usize, x: usize)
    requires
        distinct(o),
        o.contains(at),
        !o.contains(x),
    ensures
        detached(inserted_after(o, at, x), x) == o,
        inserted_after(detached(inserted_after(o, at, x), x), at, x) == inserted_after(o, at, x),
{
    let p = position(o, at);
    lemma_insert_order(o, p, x);
    let o2 = inserted_after(o, at, x);
    lemma_remove_order(o2, p + 1);
    assert(o2.remove(p + 1) =~= o);
}

/// Detaching a node right after linking it at the front gives back the list
/// as it was; linking it again then gives the same list as the first time.
pub proof fn lemma_detach_undoes_insert(o: Seq<usize>, x: usize)
    requires
        distinct(o),
        !o.contains(x),
    ensures
        detached(seq![x] + o, x) == o,
        seq![x] + detached(seq![x] + o, x) == seq![x] + o,
{
    let o2 = seq![x] + o;
    assert(o2[0] == x);
    let q = position(o2, x);
    if q != 0 {
        assert(o[q - 1] == x);
        assert(o.contains(x));
    }
    assert(o2.remove(0) =~= o);
}

/// A set of reference-counted nodes and the list threaded through their links.
pub struct ArcList<T> {
    nodes: Vec<ArcInner<T>>,
    first: Option<usize>,
    last: Option<usize>,
    order: Ghost<Seq<usize>>,
    id: Ghost<int>,
}

impl<T> ArcList<T> {
    /// The linked nodes, from the head forward.
    pub closed spec fn order(&self) -> Seq<usize> {
        self.order@
    }

    pub closed spec fn id(&self) -> int {
        self.id@
    }

    pub closed spec fn len(&self) -> nat {
        self.nodes@.len()
    }

    pub closed spec fn strong(&self, i: int) -> nat {
        self.nodes@[i].strong as nat
    }

    pub closed spec fn value(&self, i: int) -> Option<T> {
        self.nodes@[i].value
    }

    pub open spec fn linked(&self, i: int) -> bool {
        self.order().contains(i as usize)
    }

    /// The number of handles on node `i` that are still owed a share.
    pub open spec fn handles(&self, i: int) -> int {
        self.strong(i) - if self.linked(i) {
            1int
        } else {
            0int
        }
    }

    /// `h` is a live handle on a node of this list.
    pub open spec fn valid(&self, h: &TinyArc) -> bool {
        &&& h.owner() == self.id()
        &&& 0 <= h.node() < self.len()
        &&& self.handles(h.node()) >= 1
    }

    pub closed spec fn wf(&self) -> bool {
        wf_parts(self.nodes@, self.first, self.last, self.order@)
    }

    /// The linked nodes of a well-formed list are distinct nodes of it.
    pub proof fn lemma_order_wf(&self)
        requires
            self.wf(),
        ensures
            distinct(self.order()),
            forall|k: int| 0 <= k < self.order().len() ==> (self.order()[k] as int) < self.len(),
    {
    }

    pub fn new() -> (r: Self)
        ensures
            r.wf(),
            r.len() == 0,
            r.order() == Seq::<usize>::empty(),
    {
        ArcList {
            nodes: Vec::new(),
            first: None,
            last: None,
            order: Ghost(Seq::empty()),
            id: Ghost(vstd::pervasive::arbitrary()),
        }
    }

    /// A new node holding `value`, with one handle on it.
    pub fn new_arc(&mut self, value: T) -> (h: TinyArc)
        requires
            old(self).wf(),
        ensures
            final(self).wf(),
            final(self).id() == old(self).id(),
            final(self).order() == old(self).order(),
            final(self).len() == old(self).len() + 1,
            h.node() == old(self).len(),
            final(self).valid(&h),
            final(self).strong(h.node()) == 1,
            final(self).value(h.node()) == Some(value),
            forall|i: int| 0 <= i < old(self).len() ==> final(self).strong(i) == old(self).strong(i)
                && final(self).value(i) == old(self).value(i),
    {
        let index = self.nodes.len();
        self.nodes.push(ArcInner { value: Some(value), strong: 1, prev: None, next: None, linked: false });
        // The length, read back as a `usize`, bounds the node count.
        let _count = self.nodes.len();
        proof {
            assert forall|i: int| 0 <= i < old(self).nodes@.len() implies self.nodes@[i] == old(self).nodes@[i] by {}
            assert(!self.order@.contains(index)) by {
                if self.order@.contains(index) {
                    let k = choose|k: int| 0 <= k < self.order@.len() && self.order@[k] == index;
                    assert(self.order@[k] < old(self).nodes@.len());
                }
            }
        }
        TinyArc { index, owner: Ghost(self.id@) }
    }

    /// The strong count of the node `h` owns a share of.
    pub fn strong_count(&self, h: &TinyArc) -> (r: usize)
        requires
            self.wf(),
            self.valid(h),
        ensures
            r == self.strong(h.node()),
    {
        self.nodes[h.index].strong
    }

    /// The value of the node `h` owns a share of.
    pub fn get(&self, h: &TinyArc) -> (r: &T)
        requires
            self.wf(),
            self.valid(h),
        ensures
            self.value(h.node()) == Some(*r),
    {
        match &self.nodes[h.index].value {
            Some(v) => v,
            None => vstd::pervasive::unreached(),
        }
    }

    /// Whether the node of `h` is linked into the list.
    pub fn is_linked(&self, h: &TinyArc) -> (r: bool)
        requires
            self.wf(),
            self.valid(h),
        ensures
            r == self.linked(h.node()),
    {
        self.nodes[h.index].linked
    }

    /// A further handle on the node of `h`.
    pub fn clone_arc(&mut self, h: &TinyArc) -> (r: TinyArc)
        requires
            old(self).wf(),
            old(self).valid(h),
            old(self).strong(h.node()) < usize::MAX,
        ensures
            final(self).wf(),
            final(self).id() == old(self).id(),
            final(self).order() == old(self).order(),
            final(self).len() == old(self).len(),
            r.node() == h.node(),
            final(self).valid(&r),
            final(self).strong(h.node()) == old(self).strong(h.node()) + 1,
            final(self).value(h.node()) == old(self).value(h.node()),
            forall|i: int| 0 <= i < old(self).len() && i != h.node() ==> final(self).strong(i)
                == old(self).strong(i) && final(self).value(i) == old(self).value(i),
    {
        let i = h.index;
        let mut node = self.nodes.remove(i);
        node.strong = node.strong + 1;
        self.nodes.insert(i, node);
        proof {
            assert forall|j: int| 0 <= j < self.nodes@.len() && j != i implies self.nodes@[j] == old(self).nodes@[j] by {}
        }
        TinyArc { index: i, owner: Ghost(self.id@) }
    }

    /// Rewrites the links, list flag and count of node `i`, keeping its value.
    fn set_node(&mut self, i: usize, prev: Option<usize>, next: Option<usize>, linked: bool, strong: usize)
        requires
            i < old(self).nodes@.len(),
        ensures
            final(self).nodes@ == old(self).nodes@.update(
                i as int,
                (ArcInner { value: old(self).nodes@[i as int].value, strong, prev, next, linked }),
            ),
            final(self).first == old(self).first,
            final(self).last == old(self).last,
            final(self).order == old(self).order,
            final(self).id == old(self).id,
    {
        let mut node = self.nodes.remove(i);
        node.prev = prev;
        node.next = next;
        node.linked = linked;
        node.strong = strong;
        self.nodes.insert(i, node);
        proof {
            assert(self.nodes@ =~= old(self).nodes@.update(
                i as int,
                ArcInner { value: old(self).nodes@[i as int].value, strong, prev, next, linked },
            ));
        }
    }

    fn set_next(&mut self, i: usize, next: Option<usize>)
        requires
            i < old(self).nodes@.len(),
        ensures
            final(self).nodes@ == old(self).nodes@.update(
                i as int,
                (ArcInner { next, ..old(self).nodes@[i as int] }),
            ),
            final(self).first == old(self).first,
            final(self).last == old(self).last,
            final(self).order == old(self).order,
            final(self).id == old(self).id,
    {
        let prev = self.nodes[i].prev;
        let linked = self.nodes[i].linked;
        let strong = self.nodes[i].strong;
        self.set_node(i, prev, next, linked, strong);
    }

    fn set_prev(&mut self, i: usize, prev: Option<usize>)
        requires
            i < old(self).nodes@.len(),
        ensures
            final(self).nodes@ == old(self).nodes@.update(
                i as int,
                (ArcInner { prev, ..old(self).nodes@[i as int] }),
            ),
            final(self).first == old(self).first,
            final(self).last == old(self).last,
            final(self).order == old(self).order,
            final(self).id == old(self).id,
    {
        let next = self.nodes[i].next;
        let linked = self.nodes[i].linked;
        let strong = self.nodes[i].strong;
        self.set_node(i, prev, next, linked, strong);
    }

    /// Links the node of `me` right behind the node of `at`, handing the
    /// share of `me` to the list.
    ///
    /// A node that is linked already is refused: the list is left as it was
    /// and the handle `me` is given up.
    pub fn insert_after(&mut self, at: &TinyArc, me: TinyArc) -> (r: bool)
        requires
            old(self).wf(),
            old(self).valid(at),
            old(self).valid(&me),
            old(self).linked(at.node()),
        ensures
            final(self).wf(),
            final(self).id() == old(self).id(),
            final(self).len() == old(self).len(),
            r == !old(self).linked(me.node()),
            r ==> final(self).order() == inserted_after(old(self).order(), at.node() as usize, me.node() as usize),
            r ==> final(self).strong(me.node()) == old(self).strong(me.node()),
            !r ==> final(self).order() == old(self).order(),
            !r ==> final(self).strong(me.node()) == old(self).strong(me.node()) - 1,
            final(self).value(me.node()) == old(self).value(me.node()),
            forall|i: int| 0 <= i < old(self).len() && i != me.node() ==> final(self).strong(i)
                == old(self).strong(i) && final(self).value(i) == old(self).value(i),
    {
        let x = me.index;
        let a = at.index;
        if self.nodes[x].linked {
            let _released = self.drop_arc(me);
            return false;
        }
        let ghost o = self.order@;
        let ghost p = position(o, a);
        proof {
            assert(o.contains(a));
            let k = choose|k: int| 0 <= k < o.len() && o[k] == a;
            assert(0 <= p < o.len() && o[p] == a);
            assert(!o.contains(x));
        }
        let nxt = self.nodes[a].next;
        let strong = self.nodes[x].strong;
        self.set_node(x, Some(a), nxt, true, strong);
        self.set_next(a, Some(x));
        match nxt {
            Some(n) => {
                self.set_prev(n, Some(x));
            },
            None => {
                self.last = Some(x);
            },
        }
        self.order = Ghost(o.insert(p + 1, x));
        proof {
            let n0 = old(self).nodes@;
            let n1 = self.nodes@;
            if p + 1 < o.len() {
                assert(o[p] != o[p + 1]);
            }
            assert(n0[a as int].next is Some ==> n0[a as int].next->0 == o[p + 1]);
            assert(insert_shape(n0, n1, a, x, nxt));
            lemma_insert_wf(old(self).nodes@, old(self).first, old(self).last, o, p, x, self.nodes@, self.last);
        }
        true
    }

    /// Links the node of `me` at the front of the list, handing the share of
    /// `me` to the list.
    ///
    /// A node that is linked already is refused: the list is left as it was
    /// and the handle `me` is given up.
    pub fn insert(&mut self, me: TinyArc) -> (r: bool)
        requires
            old(self).wf(),
            old(self).valid(&me),
        ensures
            final(self).wf(),
            final(self).id() == old(self).id(),
            final(self).len() == old(self).len(),
            r == !old(self).linked(me.node()),
            r ==> final(self).order() == seq![me.node() as usize] + old(self).order(),
            r ==> final(self).strong(me.node()) == old(self).strong(me.node()),
            !r ==> final(self).order() == old(self).order(),
            !r ==> final(self).strong(me.node()) == old(self).strong(me.node()) - 1,
            final(self).value(me.node()) == old(self).value(me.node()),
            forall|i: int| 0 <= i < old(self).len() && i != me.node() ==> final(self).strong(i)
                == old(self).strong(i) && final(self).value(i) == old(self).value(i),
    {
        let x = me.index;
        if self.nodes[x].linked {
            let _released = self.drop_arc(me);
            return false;
        }
        let ghost o = self.order@;
        let first = self.first;
        let strong = self.nodes[x].strong;
        self.set_node(x, None, first, true, strong);
        match first {
            Some(f) => {
                proof {
                    assert(o[0] == f);
                }
                self.set_prev(f, Some(x));
            },
            None => {
                self.last = Some(x);
            },
        }
        self.first = Some(x);
        self.order = Ghost(seq![x] + o);
        proof {
            assert(push_front_shape(old(self).nodes@, self.nodes@, x, first));
            lemma_push_front_wf(old(self).nodes@, first, old(self).last, o, x, self.nodes@, self.last);
        }
        true
    }

    /// Unlinks the node of `me` and gives up the list's share of it.
    ///
    /// A node that is not linked is left alone and `false` comes back.
    pub fn detach(&mut self, me: &TinyArc) -> (r: bool)
        requires
            old(self).wf(),
            old(self).valid(me),
        ensures
            final(self).wf(),
            final(self).id() == old(self).id(),
            final(self).len() == old(self).len(),
            final(self).valid(me),
            r == old(self).linked(me.node()),
            r ==> final(self).order() == detached(old(self).order(), me.node() as usize),
            r ==> final(self).strong(me.node()) == old(self).strong(me.node()) - 1,
            !r ==> final(self).order() == old(self).order(),
            !r ==> final(self).strong(me.node()) == old(self).strong(me.node()),
            final(self).value(me.node()) == old(self).value(me.node()),
            forall|i: int| 0 <= i < old(self).len() && i != me.node() ==> final(self).strong(i)
                == old(self).strong(i) && final(self).value(i) == old(self).value(i),
    {
        let x = me.index;
        if !self.nodes[x].linked {
            return false;
        }
        let ghost o = self.order@;
        let ghost p = position(o, x);
        proof {
            assert(o.contains(x));
            lemma_remove_order(o, p);
        }
        let prv = self.nodes[x].prev;
        let nxt = self.nodes[x].next;
        let strong = self.nodes[x].strong;
        proof {
            if p > 0 {
                assert(prv->0 == o[p - 1] && o[p - 1] != x);
            }
            if p + 1 < o.len() {
                assert(nxt->0 == o[p + 1] && o[p + 1] != x);
            }
            if p > 0 && p + 1 < o.len() {
                assert(o[p - 1] != o[p + 1]);
            }
        }
        match prv {
            Some(q) => self.set_next(q, nxt),
            None => self.first = nxt,
        }
        match nxt {
            Some(n) => self.set_prev(n, prv),
            None => self.last = prv,
        }
        self.set_node(x, None, None, false, strong - 1);
        self.order = Ghost(o.remove(p));
        proof {
            assert(detach_shape(old(self).nodes@, self.nodes@, x, prv, nxt));
            lemma_detach_wf(old(self).nodes@, old(self).first, old(self).last, o, p, self.nodes@, self.first, self.last);
            assert(!self.order@.contains(x));
        }
        true
    }

    /// The linked nodes, walked from the head forward.
    pub fn forward(&self) -> (r: Vec<usize>)
        requires
            self.wf(),
        ensures
            r@ == self.order(),
    {
        let ghost o = self.order@;
        let mut r: Vec<usize> = Vec::new();
        let mut cur = self.first;
        while cur.is_some()
            invariant
                self.wf(),
                o == self.order@,
                r@.len() <= o.len(),
                r@ == o.subrange(0, r@.len() as int),
                cur == if r@.len() < o.len() {
                    Some(o[r@.len() as int])
                } else {
                    None
                },
            decreases o.len() - r@.len(),
        {
            let i = cur.unwrap();
            proof {
                assert(o[r@.len() as int] < self.nodes@.len());
            }
            r.push(i);
            cur = self.nodes[i].next;
            proof {
                assert(r@ =~= o.subrange(0, r@.len() as int));
            }
        }
        proof {
            assert(r@ =~= o);
        }
        r
    }

    /// The linked nodes, walked from the tail back to the head.
    pub fn backward(&self) -> (r: Vec<usize>)
        requires
            self.wf(),
        ensures
            r@ == self.order().reverse(),
    {
        let ghost o = self.order@;
        let mut r: Vec<usize> = Vec::new();
        let mut cur = self.last;
        while cur.is_some()
            invariant
                self.wf(),
                o == self.order@,
                r@.len() <= o.len(),
                forall|k: int| 0 <= k < r@.len() ==> #[trigger] r@[k] == o[o.len() - 1 - k],
                cur == if r@.len() < o.len() {
                    Some(o[o.len() - 1 - r@.len()])
                } else {
                    None
                },
            decreases o.len() - r@.len(),
        {
            let i = cur.unwrap();
            proof {
                assert(o[o.len() - 1 - r@.len()] < self.nodes@.len());
            }
            r.push(i);
            cur = self.nodes[i].prev;
        }
        proof {
            assert(r@ =~= o.reverse());
        }
        r
    }

    /// Gives up the handle `h`. The value is handed back exactly when `h` was
    /// the last share of its node.
    pub fn drop_arc(&mut self, h: TinyArc) -> (r: Option<T>)
        requires
            old(self).wf(),
            old(self).valid(&h),
        ensures
            final(self).wf(),
            final(self).id() == old(self).id(),
            final(self).order() == old(self).order(),
            final(self).len() == old(self).len(),
            final(self).strong(h.node()) == old(self).strong(h.node()) - 1,
            r is Some <==> old(self).strong(h.node()) == 1,
            r is Some ==> old(self).value(h.node()) == r,
            r is None ==> final(self).value(h.node()) == old(self).value(h.node()),
            final(self).value(h.node()) is Some <==> final(self).strong(h.node()) > 0,
            forall|i: int| 0 <= i < old(self).len() && i != h.node() ==> final(self).strong(i)
                == old(self).strong(i) && final(self).value(i) == old(self).value(i),
    {
        let i = h.index;
        let mut node = self.nodes.remove(i);
        node.strong = node.strong - 1;
        let r = if node.strong == 0 {
            node.value.take()
        } else {
            None
        };
        self.nodes.insert(i, node);
        proof {
            assert forall|j: int| 0 <= j < self.nodes@.len() && j != i implies self.nodes@[j] == old(self).nodes@[j] by {}
        }
        r
    }
}

} // verus!
