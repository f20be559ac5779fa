//! The state of the machine's memory as a mathematical value, and what each
//! operation does to it.

use vstd::prelude::*;
use crate::id::Id;
use crate::object::ObjectView;
use crate::reach::closure;
use crate::value::ValueView;

verus! {

/// The reference graph of a heap: each live identifier with the identifiers
/// that its value refers to.
pub open spec fn graph(heap: Map<Id, ObjectView>) -> Map<Id, Seq<Id>> {
    Map::new(|id: Id| heap.contains_key(id), |id: Id| heap[id].value.children())
}

/// What a collection with the given roots leaves of a heap: the objects in
/// the transitive closure of the roots, each as it was.
pub open spec fn collected(heap: Map<Id, ObjectView>, roots: Seq<Id>) -> Map<Id, ObjectView> {
    heap.restrict(closure(graph(heap), roots))
}

/// The memory of the machine.
pub struct Memory {
    /// The live objects, by identifier.
    pub heap: Map<Id, ObjectView>,
    /// The operand stack, bottom first. It is the root set of a collection.
    pub stack: Seq<Id>,
    /// The number of live objects above which an allocation triggers a
    /// collection.
    pub threshold: usize,
    /// Whether collections take place.
    pub gc_enabled: bool,
    /// The number of objects freed so far, which is the generation that the
    /// next allocated identifier carries.
    pub generation: u64,
}

impl Memory {
    /// The invariant between operations: the heap is finite, no object is
    /// marked, every object knows its own identifier, and no live identifier
    /// is of a generation still to come.
    pub open spec fn wf(self) -> bool {
        &&& self.heap.dom().finite()
        &&& forall|id: Id| #[trigger]
            self.heap.contains_key(id) ==> {
                &&& !self.heap[id].marked
                &&& self.heap[id].index == id
                &&& id.generation <= self.generation
            }
    }

    /// Every identifier on the stack and in a live structure is live.
    pub open spec fn sound(self) -> bool {
        &&& forall|i: int| 0 <= i < self.stack.len() ==> self.heap.contains_key(#[trigger] self.stack[i])
        &&& forall|id: Id, k: int|
            self.heap.contains_key(id) && 0 <= k < self.heap[id].value.children().len()
                ==> self.heap.contains_key(#[trigger] self.heap[id].value.children()[k])
    }

    /// `id` was live once and has been freed: no object will be stored under
    /// it again.
    pub open spec fn stale(self, id: Id) -> bool {
        !self.heap.contains_key(id) && id.generation < self.generation
    }

    /// `id` can be the identifier of the next allocation.
    pub open spec fn fresh(self, id: Id) -> bool {
        !self.heap.contains_key(id) && id.generation == self.generation
    }

    /// Whether a collection takes place when one is asked for: collection is
    /// enabled and the generation counter has room for every live object to
    /// be freed.
    pub open spec fn can_collect(self) -> bool {
        self.gc_enabled && self.generation + self.heap.len() <= u64::MAX
    }

    /// The memory after a mark-sweep pass rooted at the stack.
    pub open spec fn swept(self) -> Memory {
        let kept = collected(self.heap, self.stack);
        Memory {
            heap: kept,
            generation: (self.generation + self.heap.len() - kept.len()) as u64,
            ..self
        }
    }

    /// The memory after a collection was asked for.
    pub open spec fn collect(self) -> Memory {
        if self.can_collect() {
            self.swept()
        } else {
            self
        }
    }

    /// The memory after `id` was pushed on the stack.
    pub open spec fn push(self, id: Id) -> Memory {
        Memory { stack: self.stack.push(id), ..self }
    }

    /// The memory after the top of the stack was removed, if there was one.
    pub open spec fn pop(self) -> Memory {
        if self.stack.len() > 0 {
            Memory { stack: self.stack.drop_last(), ..self }
        } else {
            self
        }
    }

    /// The memory after the top `n` identifiers were removed from the stack.
    pub open spec fn pop_many(self, n: int) -> Memory {
        Memory { stack: self.stack.take(self.stack.len() - n), ..self }
    }

    /// The memory with the stack emptied: what is left after popping more
    /// than there was.
    pub open spec fn drained(self) -> Memory {
        Memory { stack: Seq::empty(), ..self }
    }

    /// The memory with `value` stored as a new object under `id` and `id`
    /// pushed on the stack, before any collection.
    pub open spec fn grown(self, value: ValueView, id: Id) -> Memory {
        Memory {
            heap: self.heap.insert(id, ObjectView { marked: false, index: id, value }),
            stack: self.stack.push(id),
            ..self
        }
    }

    /// The memory after `value` was allocated under `id` and pushed: a
    /// collection is asked for when the live count has passed the threshold.
    pub open spec fn allocate(self, value: ValueView, id: Id) -> Memory {
        let grown = self.grown(value, id);
        if grown.heap.len() > self.threshold {
            grown.collect()
        } else {
            grown
        }
    }

    /// The memory after collection was switched on or off: switching it on
    /// above the threshold asks for a collection at once.
    pub open spec fn set_gc(self, on: bool) -> Memory {
        let set = Memory { gc_enabled: on, ..self };
        if on && set.heap.len() > set.threshold {
            set.collect()
        } else {
            set
        }
    }
}

} // verus!
