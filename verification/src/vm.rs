//! The machine's memory: a heap of objects addressed by generation-checked
//! identifiers, an operand stack of identifiers that roots the heap, and a
//! mark-sweep collector.

use vstd::prelude::*;
use generational_arena::Arena;
use crate::arena::{
    heap_generation, heap_get, heap_get_mut, heap_insert_with, heap_len, heap_new, heap_objects,
    heap_retain_marked, swept, unmark,
};
use crate::id::Id;
use crate::memory::{collected, graph, Memory};
use crate::object::{views, Object, ObjectView};
use crate::reach::{
    closed, closure, edge, lemma_closed_holds_reach, lemma_closure_closed, lemma_closure_live,
    lemma_closure_push, lemma_reach_edge, lemma_reach_root, reach, reachable_from, reached,
};
use crate::text::{is_printer, rendering};
use crate::traits::{DisplayArena, Tree};
use crate::value::Value;

verus! {

/// The identifiers of the marked records.
spec fn marked_ids(objs: Map<Id, Object>) -> Set<Id> {
    Set::new(|id: Id| objs.contains_key(id) && objs[id].marked)
}

/// The identifiers of the records that are not marked.
spec fn unmarked_ids(objs: Map<Id, Object>) -> Set<Id> {
    Set::new(|id: Id| objs.contains_key(id) && !objs[id].marked)
}

/// Two heaps hold the same records but for the mark bits.
spec fn same_shape(a: Map<Id, Object>, b: Map<Id, Object>) -> bool {
    &&& a.dom() == b.dom()
    &&& forall|id: Id| #[trigger]
        a.contains_key(id) ==> a[id].index == b[id].index && a[id].value == b[id].value
}

/// Heaps of the same shape have the same reference graph.
proof fn lemma_same_shape_graph(a: Map<Id, Object>, b: Map<Id, Object>)
    requires
        same_shape(a, b),
    ensures
        graph(views(a)) == graph(views(b)),
{
    assert forall|id: Id| a.contains_key(id) implies b.contains_key(id) by {
        assert(a.dom().contains(id));
    }
    assert forall|id: Id| b.contains_key(id) implies a.contains_key(id) by {
        assert(b.dom().contains(id));
    }
    assert(graph(views(a)) =~= graph(views(b)));
}

/// A finite heap has finitely many marked and finitely many unmarked records.
proof fn lemma_unmarked_finite(objs: Map<Id, Object>)
    requires
        objs.dom().finite(),
    ensures
        unmarked_ids(objs).finite(),
        marked_ids(objs).finite(),
{
    vstd::set_lib::lemma_len_subset(unmarked_ids(objs), objs.dom());
    vstd::set_lib::lemma_len_subset(marked_ids(objs), objs.dom());
}

/// The memory of the machine. Its content as a value is its view, a
/// [`Memory`].
pub struct VM {
    objects: Arena<Object>,
    stack: Vec<Id>,
    max_objects: usize,
    gc_on: bool,
    freed: u64,
}

impl View for VM {
    type V = Memory;

    closed spec fn view(&self) -> Memory {
        Memory {
            heap: views(heap_objects(self.objects)),
            stack: self.stack@,
            threshold: self.max_objects,
            gc_enabled: self.gc_on,
            generation: self.freed,
        }
    }
}

impl VM {
    /// The part of the invariant that concerns the slot store itself: it is
    /// finite and its generation counter is the number of objects freed.
    pub closed spec fn store_inv(&self) -> bool {
        &&& heap_objects(self.objects).dom().finite()
        &&& self.freed == heap_generation(self.objects)
    }

    /// The invariant of the memory between operations.
    pub open spec fn wf(&self) -> bool {
        self.store_inv() && self@.wf()
    }

    /// A memory without objects, with an empty stack, collection enabled and
    /// the given threshold.
    pub fn new(size: usize) -> (vm: VM)
        ensures
            vm.wf(),
            vm@ == (Memory {
                heap: Map::empty(),
                stack: Seq::empty(),
                threshold: size,
                gc_enabled: true,
                generation: 0,
            }),
    {
        let vm = VM { objects: heap_new(), stack: Vec::new(), max_objects: size, gc_on: true, freed: 0 };
        assert(vm@.heap =~= Map::empty());
        assert(vm@.heap.dom() =~= Set::empty());
        vm
    }

    /// The object stored under `id`, or `None` when `id` is stale or was
    /// never issued.
    pub fn get(&self, id: Id) -> (r: Option<&Object>)
        ensures
            r.is_some() == self@.heap.contains_key(id),
            r.is_some() ==> r.unwrap()@ == self@.heap[id],
    {
        heap_get(&self.objects, id)
    }

    /// The object stored under `id`, with write access, or `None` when `id`
    /// is stale or was never issued. The heap afterwards holds under `id`
    /// what the caller left in the object; to go on, the caller has to leave
    /// the memory well-formed.
    pub fn get_mut(&mut self, id: Id) -> (r: Option<&mut Object>)
        ensures
            r.is_some() == old(self)@.heap.contains_key(id),
            r.is_some() ==> r.unwrap()@ == old(self)@.heap[id],
            r.is_some() ==> final(self)@ == (Memory {
                heap: old(self)@.heap.insert(id, final(r.unwrap())@),
                ..old(self)@
            }),
            r.is_none() ==> final(self)@ == old(self)@,
            old(self).store_inv() ==> final(self).store_inv(),
    {
        proof {
            let objs = heap_objects(self.objects);
            assert forall|obj: Object| objs.contains_key(id) implies #[trigger] views(
                objs.insert(id, obj),
            ) == views(objs).insert(id, obj@) && objs.insert(id, obj).dom() == objs.dom() by {
                assert(views(objs.insert(id, obj)) =~= views(objs).insert(id, obj@));
                assert(objs.insert(id, obj).dom() =~= objs.dom());
            }
        }
        heap_get_mut(&mut self.objects, id)
    }

    /// The top of the operand stack, if there is one.
    pub fn top(&self) -> (r: Option<Id>)
        ensures
            r == if self@.stack.len() > 0 { Some(self@.stack.last()) } else { None },
    {
        let n = self.stack.len();
        if n > 0 {
            Some(self.stack[n - 1])
        } else {
            None
        }
    }

    /// Removes and returns the top of the operand stack, if there is one.
    pub fn pop(&mut self) -> (r: Option<Id>)
        ensures
            r == if old(self)@.stack.len() > 0 { Some(old(self)@.stack.last()) } else { None },
            final(self)@ == old(self)@.pop(),
            old(self).wf() ==> final(self).wf(),
    {
        let id = self.stack.pop()?;
        Some(id)
    }

    /// Removes the topmost `n` identifiers from the operand stack and returns
    /// them, the one pushed first in front. Where the stack holds fewer, it is
    /// emptied and nothing is returned.
    pub fn take(&mut self, n: usize) -> (r: Option<Vec<Id>>)
        ensures
            old(self)@.stack.len() >= n ==> r is Some && r.unwrap()@ == old(self)@.stack.skip(
                old(self)@.stack.len() - n,
            ) && final(self)@ == old(self)@.pop_many(n as int),
            old(self)@.stack.len() < n ==> r is None && final(self)@ == old(self)@.drained(),
            old(self).wf() ==> final(self).wf(),
    {
        let len = self.stack.len();
        if len < n {
            self.stack.clear();
            None
        } else {
            let taken = self.stack.split_off(len - n);
            proof {
                assert(taken@ =~= old(self)@.stack.skip(len - n));
                assert(self.stack@ =~= old(self)@.stack.take(len - n));
            }
            Some(taken)
        }
    }

    /// Pushes `id` on the operand stack.
    pub fn push(&mut self, id: Id)
        ensures
            final(self)@ == old(self)@.push(id),
            old(self).wf() ==> final(self).wf(),
    {
        self.stack.push(id);
    }

    /// Marks every live object that `root` reaches. Objects already marked
    /// are not visited again, so the marked set must hold, with each object,
    /// all that the object refers to.
    fn mark(&mut self, root: Id)
        requires
            old(self).store_inv(),
            closed(
                graph(views(heap_objects(old(self).objects))),
                marked_ids(heap_objects(old(self).objects)),
            ),
        ensures
            final(self).store_inv(),
            same_shape(heap_objects(old(self).objects), heap_objects(final(self).objects)),
            marked_ids(heap_objects(final(self).objects)) == marked_ids(
                heap_objects(old(self).objects),
            ).union(reached(graph(views(heap_objects(old(self).objects))), root)),
            final(self).stack == old(self).stack,
            final(self).max_objects == old(self).max_objects,
            final(self).gc_on == old(self).gc_on,
            final(self).freed == old(self).freed,
    {
        let ghost objs0 = heap_objects(self.objects);
        let ghost g = graph(views(objs0));
        let ghost m0 = marked_ids(objs0);
        let mut work: Vec<Id> = Vec::new();
        work.push(root);
        proof {
            assert(work@[0] == root);
            if g.contains_key(root) {
                lemma_reach_root(g, root);
            }
            assert forall|a: Id, b: Id|
                marked_ids(objs0).contains(a) && #[trigger] edge(g, a, b) implies marked_ids(
                objs0,
            ).contains(b) || work@.contains(b) by {}
        }
        while work.len() > 0
            invariant
                self.store_inv(),
                self.stack == old(self).stack,
                self.max_objects == old(self).max_objects,
                self.gc_on == old(self).gc_on,
                self.freed == old(self).freed,
                objs0 == heap_objects(old(self).objects),
                g == graph(views(objs0)),
                m0 == marked_ids(objs0),
                same_shape(objs0, heap_objects(self.objects)),
                m0.subset_of(marked_ids(heap_objects(self.objects))),
                forall|id: Id| #[trigger]
                    marked_ids(heap_objects(self.objects)).contains(id) ==> m0.contains(id)
                        || reachable_from(g, root, id),
                forall|i: int|
                    0 <= i < work@.len() && g.contains_key(#[trigger] work@[i]) ==> reachable_from(
                        g,
                        root,
                        work@[i],
                    ),
                g.contains_key(root) ==> marked_ids(heap_objects(self.objects)).contains(root)
                    || work@.contains(root),
                forall|a: Id, b: Id|
                    marked_ids(heap_objects(self.objects)).contains(a) && #[trigger] edge(g, a, b)
                        ==> marked_ids(heap_objects(self.objects)).contains(b) || work@.contains(b),
            decreases unmarked_ids(heap_objects(self.objects)).len(), work@.len(),
        {
            let ghost objs1 = heap_objects(self.objects);
            let ghost work1 = work@;
            let id = work.pop().unwrap();
            let ghost rest = work@;
            let mut kids: Vec<Id> = Vec::new();
            let mut fresh: bool = false;
            match heap_get_mut(&mut self.objects, id) {
                Some(obj) => {
                    if !obj.marked {
                        obj.marked = true;
                        kids = obj.children();
                        fresh = true;
                    }
                },
                None => {},
            }
            let ghost objs2 = heap_objects(self.objects);
            proof {
                assert(work1.last() == id);
                assert(rest == work1.drop_last());
                assert(objs0.dom().contains(id) == objs0.contains_key(id));
                if fresh {
                    assert(objs1.contains_key(id));
                    assert(objs2 == objs1.insert(id, objs2[id]));
                    assert(objs2[id].marked && objs2[id].index == objs1[id].index && objs2[id].value
                        == objs1[id].value);
                    assert(objs2.dom() =~= objs1.dom());
                    assert(kids@ == g[id]);
                    assert(g.contains_key(id));
                    assert(reachable_from(g, root, id)) by {
                        assert(work1[work1.len() - 1] == id);
                    }
                    assert(unmarked_ids(objs2) =~= unmarked_ids(objs1).remove(id));
                    assert(unmarked_ids(objs1).contains(id));
                    lemma_unmarked_finite(objs1);
                    assert(marked_ids(objs2) =~= marked_ids(objs1).insert(id));
                } else {
                    assert(objs2 =~= objs1) by {
                        if objs1.contains_key(id) {
                            assert(objs2 == objs1.insert(id, objs2[id]));
                            assert(objs2[id] == objs1[id]);
                        }
                    }
                    assert(kids@.len() == 0);
                }
                assert forall|b: Id| work1.contains(b) implies rest.contains(b) || b == id by {
                    let i = choose|i: int| 0 <= i < work1.len() && work1[i] == b;
                    if i < work1.len() - 1 {
                        assert(rest[i] == b);
                    }
                }
                assert forall|i: int| 0 <= i < rest.len() implies rest[i] == work1[i] by {}
                assert(g.contains_key(id) ==> marked_ids(objs2).contains(id));
            }
            let mut j: usize = 0;
            while j < kids.len()
                invariant
                    j <= kids.len(),
                    fresh ==> kids@ == g[id] && g.contains_key(id) && reachable_from(g, root, id),
                    !fresh ==> kids@.len() == 0,
                    work@.len() >= rest.len(),
                    forall|i: int| 0 <= i < rest.len() ==> work@[i] == rest[i],
                    forall|i: int|
                        0 <= i < work@.len() && g.contains_key(#[trigger] work@[i])
                            ==> reachable_from(g, root, work@[i]),
                    forall|k: int| 0 <= k < j ==> work@.contains(#[trigger] kids@[k]),
                    !fresh ==> work@ == rest,
                decreases kids.len() - j,
            {
                let kid = kids[j];
                let ghost before = work@;
                work.push(kid);
                proof {
                    assert(work@[before.len() as int] == kid);
                    assert forall|k: int| 0 <= k < j + 1 implies work@.contains(#[trigger] kids@[k]) by {
                        if k < j {
                            let i = choose|i: int| 0 <= i < before.len() && before[i] == kids@[k];
                            assert(work@[i] == kids@[k]);
                        }
                    }
                    if g.contains_key(kid) {
                        assert(g[id].contains(kid)) by {
                            assert(kids@[j as int] == kid);
                        }
                        assert(edge(g, id, kid));
                        lemma_reach_edge(g, root, id, kid);
                    }
                }
                j += 1;
            }
            proof {
                assert forall|b: Id| rest.contains(b) implies work@.contains(b) by {
                    let i = choose|i: int| 0 <= i < rest.len() && rest[i] == b;
                    assert(work@[i] == b);
                }
                assert forall|a: Id, b: Id|
                    marked_ids(objs2).contains(a) && #[trigger] edge(g, a, b) implies marked_ids(
                    objs2,
                ).contains(b) || work@.contains(b) by {
                    if a == id && fresh {
                        let k = choose|k: int| 0 <= k < g[id].len() && g[id][k] == b;
                        assert(work@.contains(kids@[k]));
                    } else {
                        assert(marked_ids(objs1).contains(a));
                        assert(marked_ids(objs1).contains(b) || work1.contains(b));
                    }
                }
                if !fresh {
                    assert(work@.len() < work1.len());
                }
            }
        }
        proof {
            let objs = heap_objects(self.objects);
            let m = marked_ids(objs);
            assert(work@.len() == 0);
            assert forall|a: Id, b: Id| m.contains(a) && #[trigger] edge(g, a, b) implies m.contains(
                b,
            ) by {
                assert(!work@.contains(b));
            }
            assert(!work@.contains(root));
            assert forall|id: Id| reached(g, root).contains(id) implies m.contains(id) by {
                let n = choose|n: nat| reach(g, root, id, n);
                lemma_closed_holds_reach(g, m, root, id, n);
            }
            assert(m =~= m0.union(reached(g, root)));
        }
    }
}

impl VM {
    /// Marks every live object that the operand stack reaches.
    fn mark_all(&mut self)
        requires
            old(self).store_inv(),
            marked_ids(heap_objects(old(self).objects)) == Set::<Id>::empty(),
        ensures
            final(self).store_inv(),
            same_shape(heap_objects(old(self).objects), heap_objects(final(self).objects)),
            marked_ids(heap_objects(final(self).objects)) == closure(
                graph(views(heap_objects(old(self).objects))),
                old(self).stack@,
            ),
            final(self).stack == old(self).stack,
            final(self).max_objects == old(self).max_objects,
            final(self).gc_on == old(self).gc_on,
            final(self).freed == old(self).freed,
    {
        let ghost objs0 = heap_objects(self.objects);
        let ghost g = graph(views(objs0));
        let ghost roots = self.stack@;
        proof {
            assert(closure(g, roots.take(0)) =~= Set::<Id>::empty());
        }
        let mut i: usize = 0;
        while i < self.stack.len()
            invariant
                i <= self.stack.len(),
                self.store_inv(),
                self.stack == old(self).stack,
                self.max_objects == old(self).max_objects,
                self.gc_on == old(self).gc_on,
                self.freed == old(self).freed,
                objs0 == heap_objects(old(self).objects),
                g == graph(views(objs0)),
                roots == self.stack@,
                same_shape(objs0, heap_objects(self.objects)),
                marked_ids(heap_objects(self.objects)) == closure(g, roots.take(i as int)),
            decreases self.stack.len() - i,
        {
            let root = self.stack[i];
            let ghost objs1 = heap_objects(self.objects);
            proof {
                lemma_same_shape_graph(objs0, objs1);
                lemma_closure_closed(g, roots.take(i as int));
            }
            self.mark(root);
            proof {
                let objs2 = heap_objects(self.objects);
                lemma_closure_push(g, roots.take(i as int), root);
                assert(roots.take(i + 1) =~= roots.take(i as int).push(root));
                assert forall|id: Id| #[trigger] objs0.contains_key(id) implies objs0[id].index
                    == objs2[id].index && objs0[id].value == objs2[id].value by {
                    assert(objs0.dom().contains(id));
                    assert(objs1.contains_key(id));
                }
            }
            i += 1;
        }
        proof {
            assert(roots.take(i as int) =~= roots);
        }
    }

    /// Frees every unmarked object and clears the mark of the others.
    fn sweep(&mut self)
        requires
            old(self).store_inv(),
            old(self).freed + heap_objects(old(self).objects).dom().len() <= u64::MAX,
        ensures
            final(self).store_inv(),
            heap_objects(final(self).objects) == swept(heap_objects(old(self).objects)),
            final(self).freed == old(self).freed + heap_objects(old(self).objects).dom().len()
                - heap_objects(final(self).objects).dom().len(),
            final(self).stack == old(self).stack,
            final(self).max_objects == old(self).max_objects,
            final(self).gc_on == old(self).gc_on,
    {
        let ghost objs0 = heap_objects(self.objects);
        let before = heap_len(&self.objects);
        heap_retain_marked(&mut self.objects);
        proof {
            assert(swept(objs0).dom().subset_of(objs0.dom()));
            vstd::set_lib::lemma_len_subset(swept(objs0).dom(), objs0.dom());
        }
        let after = heap_len(&self.objects);
        self.freed = self.freed + (before - after) as u64;
    }

    /// The number of live objects.
    pub fn len(&self) -> (n: usize)
        requires
            self.wf(),
        ensures
            n == self@.heap.len(),
    {
        proof {
            assert(self@.heap.dom() =~= heap_objects(self.objects).dom());
        }
        heap_len(&self.objects)
    }

    /// Asks for a collection. When collection is enabled and the generation
    /// counter has room, every object that the operand stack does not reach
    /// is freed; otherwise nothing changes.
    pub fn garbage_collect(&mut self)
        requires
            old(self).wf(),
        ensures
            final(self).wf(),
            final(self)@ == old(self)@.collect(),
    {
        if !self.gc_on {
            return ;
        }
        let ghost objs0 = heap_objects(self.objects);
        let ghost mem0 = self@;
        proof {
            assert(mem0.heap.dom() =~= objs0.dom());
        }
        let n = heap_len(&self.objects);
        if n as u64 > u64::MAX - self.freed {
            return ;
        }
        proof {
            assert forall|id: Id| !marked_ids(objs0).contains(id) by {
                if objs0.contains_key(id) {
                    assert(mem0.heap.contains_key(id));
                }
            }
            assert(marked_ids(objs0) =~= Set::<Id>::empty());
        }
        self.mark_all();
        let ghost objs1 = heap_objects(self.objects);
        self.sweep();
        proof {
            let objs2 = heap_objects(self.objects);
            let g = graph(mem0.heap);
            let live = closure(g, mem0.stack);
            lemma_closure_live(g, mem0.stack);
            assert(g.dom() =~= objs0.dom());
            assert forall|id: Id| objs2.contains_key(id) <==> live.contains(id) by {
                assert(marked_ids(objs1).contains(id) <==> live.contains(id));
            }
            assert forall|id: Id| live.contains(id) implies #[trigger] objs2[id]@ == mem0.heap[id] by {
                assert(objs0.dom().contains(id));
                assert(objs0.contains_key(id));
                assert(mem0.heap.contains_key(id));
                assert(objs2[id] == unmark(objs1[id]));
            }
            assert(self@.heap =~= collected(mem0.heap, mem0.stack));
            assert(self@.heap.dom() =~= objs2.dom());
            vstd::set_lib::lemma_len_subset(self@.heap.dom(), mem0.heap.dom());
            assert(self@ == mem0.swept());
            assert forall|id: Id| #[trigger] self@.heap.contains_key(id) implies !self@.heap[id].marked
                && self@.heap[id].index == id && id.generation <= self@.generation by {
                assert(mem0.heap.contains_key(id));
            }
        }
    }

    /// Stores `val` as a new object and pushes its identifier on the operand
    /// stack. When the live count has then passed the threshold, a collection
    /// is asked for.
    pub fn push_value(&mut self, val: Value)
        requires
            old(self).wf(),
        ensures
            final(self).wf(),
            final(self)@.stack.len() > 0,
            old(self)@.fresh(final(self)@.stack.last()),
            final(self)@ == old(self)@.allocate(val@, final(self)@.stack.last()),
    {
        let ghost mem0 = self@;
        let ghost objs0 = heap_objects(self.objects);
        let id = heap_insert_with(&mut self.objects, val);
        self.push(id);
        proof {
            let objs1 = heap_objects(self.objects);
            assert(self@.heap =~= mem0.heap.insert(id, ObjectView { marked: false, index: id, value: val@ }));
            assert(self@ == mem0.grown(val@, id));
            assert(self@.heap.dom() =~= objs1.dom());
            assert forall|k: Id| #[trigger] self@.heap.contains_key(k) implies !self@.heap[k].marked
                && self@.heap[k].index == k && k.generation <= self@.generation by {
                if k != id {
                    assert(mem0.heap.contains_key(k));
                }
            }
            assert(self@.stack.last() == id);
        }
        if self.len() > self.max_objects {
            self.garbage_collect();
            proof {
                assert(self@.stack == mem0.grown(val@, id).stack);
            }
        }
    }

    /// Switches collection on or off. Switching it on above the threshold
    /// asks for a collection at once.
    pub fn gc(&mut self, on: bool)
        requires
            old(self).wf(),
        ensures
            final(self).wf(),
            final(self)@ == old(self)@.set_gc(on),
    {
        self.gc_on = on;
        if self.gc_on && self.len() > self.max_objects {
            self.garbage_collect();
        }
    }
}

impl VM {
    /// The canonical text of the object under `id`: an integer as `<value>i`,
    /// a floating-point value as the printer's text and `f`, a structure as
    /// `Struct(` and `)` around the texts of its fields, separated by a comma
    /// and a space. `None` where `id`, or an identifier met in a structure,
    /// is not live, or structures are nested deeper than there are objects.
    pub fn display<R: Fn(u32) -> String>(&self, id: Id, printer: &R) -> (r: Option<String>)
        requires
            self.wf(),
            is_printer(*printer),
        ensures
            r matches Some(s) ==> rendering(self@.heap, *printer, id, self@.heap.len()) == Some(s@),
            r is None ==> rendering(self@.heap, *printer, id, self@.heap.len()) is None,
    {
        let depth = self.len();
        match heap_get(&self.objects, id) {
            Some(object) => object.display_arena(&self.objects, printer, depth),
            None => None,
        }
    }
}

} // verus!
