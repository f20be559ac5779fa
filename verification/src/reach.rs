//! Reachability in a reference graph.
//!
//! A graph maps each live identifier to the identifiers it refers to. A
//! reference to an identifier that is not live leads nowhere.

use vstd::prelude::*;
use crate::id::Id;

verus! {

/// `a` and `b` are live and `a` refers to `b`.
pub open spec fn edge(g: Map<Id, Seq<Id>>, a: Id, b: Id) -> bool {
    g.contains_key(a) && g.contains_key(b) && g[a].contains(b)
}

/// `id` is reached from the live identifier `root` by following exactly `n`
/// references.
pub open spec fn reach(g: Map<Id, Seq<Id>>, root: Id, id: Id, n: nat) -> bool
    decreases n,
{
    if n == 0 {
        id == root && g.contains_key(root)
    } else {
        exists|mid: Id| reach(g, root, mid, (n - 1) as nat) && #[trigger] edge(g, mid, id)
    }
}

/// `id` is reached from `root` by following references.
pub open spec fn reachable_from(g: Map<Id, Seq<Id>>, root: Id, id: Id) -> bool {
    exists|n: nat| reach(g, root, id, n)
}

/// All that `root` reaches.
pub open spec fn reached(g: Map<Id, Seq<Id>>, root: Id) -> Set<Id> {
    Set::new(|id: Id| reachable_from(g, root, id))
}

/// `id` is reached from one of `roots`.
pub open spec fn reachable(g: Map<Id, Seq<Id>>, roots: Seq<Id>, id: Id) -> bool {
    exists|i: int| 0 <= i < roots.len() && reachable_from(g, #[trigger] roots[i], id)
}

/// The transitive closure of `roots`: every live identifier that is a root or
/// is referred to, directly or through other live identifiers, by one.
pub open spec fn closure(g: Map<Id, Seq<Id>>, roots: Seq<Id>) -> Set<Id> {
    Set::new(|id: Id| reachable(g, roots, id))
}

/// `s` holds, with each live identifier in it, all that it refers to.
pub open spec fn closed(g: Map<Id, Seq<Id>>, s: Set<Id>) -> bool {
    forall|a: Id, b: Id| s.contains(a) && #[trigger] edge(g, a, b) ==> s.contains(b)
}

/// Whatever is reached is live.
pub proof fn lemma_reach_live(g: Map<Id, Seq<Id>>, root: Id, id: Id, n: nat)
    requires
        reach(g, root, id, n),
    ensures
        g.contains_key(id),
        g.contains_key(root),
    decreases n,
{
    if n > 0 {
        assert(exists|mid: Id| reach(g, root, mid, (n - 1) as nat) && #[trigger] edge(g, mid, id));
        let mid = choose|mid: Id| reach(g, root, mid, (n - 1) as nat) && #[trigger] edge(g, mid, id);
        lemma_reach_live(g, root, mid, (n - 1) as nat);
    }
}

/// A live root reaches itself.
pub proof fn lemma_reach_root(g: Map<Id, Seq<Id>>, root: Id)
    requires
        g.contains_key(root),
    ensures
        reachable_from(g, root, root),
{
    assert(reach(g, root, root, 0));
}

/// Reachability extends along a reference.
pub proof fn lemma_reach_edge(g: Map<Id, Seq<Id>>, root: Id, a: Id, b: Id)
    requires
        reachable_from(g, root, a),
        edge(g, a, b),
    ensures
        reachable_from(g, root, b),
{
    let n = choose|n: nat| reach(g, root, a, n);
    let m: nat = n + 1;
    assert(reach(g, root, a, (m - 1) as nat) && edge(g, a, b));
    assert(exists|mid: Id| reach(g, root, mid, (m - 1) as nat) && #[trigger] edge(g, mid, b));
    assert(reach(g, root, b, m));
}

/// A closed set that holds a root holds all that the root reaches.
pub proof fn lemma_closed_holds_reach(g: Map<Id, Seq<Id>>, s: Set<Id>, root: Id, id: Id, n: nat)
    requires
        closed(g, s),
        g.contains_key(root) ==> s.contains(root),
        reach(g, root, id, n),
    ensures
        s.contains(id),
    decreases n,
{
    if n > 0 {
        assert(exists|mid: Id| reach(g, root, mid, (n - 1) as nat) && #[trigger] edge(g, mid, id));
        let mid = choose|mid: Id| reach(g, root, mid, (n - 1) as nat) && #[trigger] edge(g, mid, id);
        lemma_closed_holds_reach(g, s, root, mid, (n - 1) as nat);
    }
}

/// The closure of a set of roots is closed.
pub proof fn lemma_closure_closed(g: Map<Id, Seq<Id>>, roots: Seq<Id>)
    ensures
        closed(g, closure(g, roots)),
{
    assert forall|a: Id, b: Id| closure(g, roots).contains(a) && #[trigger] edge(g, a, b) implies closure(
        g,
        roots,
    ).contains(b) by {
        let i = choose|i: int| 0 <= i < roots.len() && reachable_from(g, #[trigger] roots[i], a);
        lemma_reach_edge(g, roots[i], a, b);
    }
}

/// The closure holds only live identifiers, and every live root.
pub proof fn lemma_closure_live(g: Map<Id, Seq<Id>>, roots: Seq<Id>)
    ensures
        closure(g, roots).subset_of(g.dom()),
        forall|i: int| 0 <= i < roots.len() && g.contains_key(#[trigger] roots[i]) ==> closure(g, roots).contains(roots[i]),
{
    assert forall|id: Id| closure(g, roots).contains(id) implies g.dom().contains(id) by {
        let i = choose|i: int| 0 <= i < roots.len() && reachable_from(g, #[trigger] roots[i], id);
        let n = choose|n: nat| reach(g, roots[i], id, n);
        lemma_reach_live(g, roots[i], id, n);
    }
    assert forall|i: int| 0 <= i < roots.len() && g.contains_key(#[trigger] roots[i]) implies closure(g, roots).contains(roots[i]) by {
        lemma_reach_root(g, roots[i]);
    }
}

/// The closure of `roots` with one more root is the closure of `roots`
/// together with all that the new root reaches.
pub proof fn lemma_closure_push(g: Map<Id, Seq<Id>>, roots: Seq<Id>, root: Id)
    ensures
        closure(g, roots.push(root)) == closure(g, roots).union(reached(g, root)),
{
    let more = roots.push(root);
    assert forall|id: Id| closure(g, more).contains(id) <==> (closure(g, roots).contains(id) || reached(g, root).contains(id)) by {
        if closure(g, more).contains(id) {
            let i = choose|i: int| 0 <= i < more.len() && reachable_from(g, #[trigger] more[i], id);
            if i < roots.len() {
                assert(reachable_from(g, roots[i], id));
            }
        }
        if closure(g, roots).contains(id) {
            let i = choose|i: int| 0 <= i < roots.len() && reachable_from(g, #[trigger] roots[i], id);
            assert(reachable_from(g, more[i], id));
        }
        if reachable_from(g, root, id) {
            assert(reachable_from(g, more[roots.len() as int], id));
        }
    }
    assert(closure(g, more) =~= closure(g, roots).union(reached(g, root)));
}

} // verus!
