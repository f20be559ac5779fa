//! What holds of collections and of identifiers, whatever the memory.

use vstd::prelude::*;
use crate::error::Fault;
use crate::float::Arith;
use crate::id::Id;
use crate::machine::{combine, operands_fit, Flow, Machine, Operation, Status};
use crate::text::rendering;
use crate::memory::{collected, graph, Memory};
use crate::object::ObjectView;
use crate::reach::{
    closed, closure, edge, lemma_closure_closed, lemma_closure_live, reach, reachable_from,
};
use crate::value::ValueView;

verus! {

/// A path in a graph cut down to a closed set that holds the path's root is a
/// path in the whole graph, and the other way round.
pub proof fn lemma_reach_restricted(g: Map<Id, Seq<Id>>, s: Set<Id>, root: Id, id: Id, n: nat)
    requires
        closed(g, s),
        g.contains_key(root) ==> s.contains(root),
    ensures
        reach(g, root, id, n) <==> reach(g.restrict(s), root, id, n),
        reach(g, root, id, n) ==> s.contains(id),
    decreases n,
{
    let cut = g.restrict(s);
    if n > 0 {
        if reach(g, root, id, n) {
            assert(exists|mid: Id| reach(g, root, mid, (n - 1) as nat) && #[trigger] edge(g, mid, id));
            let mid = choose|mid: Id| reach(g, root, mid, (n - 1) as nat) && #[trigger] edge(g, mid, id);
            lemma_reach_restricted(g, s, root, mid, (n - 1) as nat);
            assert(s.contains(id));
            assert(edge(cut, mid, id));
        }
        if reach(cut, root, id, n) {
            assert(exists|mid: Id| reach(cut, root, mid, (n - 1) as nat) && #[trigger] edge(cut, mid, id));
            let mid = choose|mid: Id| reach(cut, root, mid, (n - 1) as nat) && #[trigger] edge(cut, mid, id);
            lemma_reach_restricted(g, s, root, mid, (n - 1) as nat);
            assert(edge(g, mid, id));
        }
    }
}

/// The objects that a collection keeps reach, from the same roots, exactly
/// what was reached before.
pub proof fn lemma_closure_of_collected(heap: Map<Id, ObjectView>, roots: Seq<Id>)
    ensures
        closure(graph(collected(heap, roots)), roots) == closure(graph(heap), roots),
{
    let g = graph(heap);
    let live = closure(g, roots);
    let cut = graph(collected(heap, roots));
    assert(cut =~= g.restrict(live));
    lemma_closure_closed(g, roots);
    lemma_closure_live(g, roots);
    assert forall|id: Id| closure(cut, roots).contains(id) <==> live.contains(id) by {
        if closure(cut, roots).contains(id) {
            let i = choose|i: int| 0 <= i < roots.len() && reachable_from(cut, #[trigger] roots[i], id);
            let n = choose|n: nat| reach(cut, roots[i], id, n);
            lemma_reach_restricted(g, live, roots[i], id, n);
            assert(reachable_from(g, roots[i], id));
        }
        if live.contains(id) {
            let i = choose|i: int| 0 <= i < roots.len() && reachable_from(g, #[trigger] roots[i], id);
            let n = choose|n: nat| reach(g, roots[i], id, n);
            lemma_reach_restricted(g, live, roots[i], id, n);
            assert(reachable_from(cut, roots[i], id));
        }
    }
    assert(closure(cut, roots) =~= live);
}

/// A collection leaves exactly the transitive closure of the operand stack:
/// every object in it is present as it was, nothing else is present, the
/// live count is the size of the closure, no survivor is marked, the stack
/// is as it was, and the generation has grown by the number of objects freed.
pub proof fn law_collection_leaves_the_closure(m: Memory)
    requires
        m.wf(),
        m.can_collect(),
    ensures
        m.collect().heap.dom() == closure(graph(m.heap), m.stack),
        m.collect().heap.len() == closure(graph(m.heap), m.stack).len(),
        forall|id: Id| #[trigger]
            closure(graph(m.heap), m.stack).contains(id) ==> m.heap.contains_key(id)
                && m.collect().heap[id] == m.heap[id],
        forall|id: Id| #[trigger] m.collect().heap.contains_key(id) ==> !m.collect().heap[id].marked,
        m.collect().stack == m.stack,
        m.collect().generation == m.generation + (m.heap.len() - m.collect().heap.len()),
        m.collect().heap.len() <= m.heap.len(),
        m.collect().wf(),
{
    let g = graph(m.heap);
    lemma_closure_live(g, m.stack);
    assert(g.dom() =~= m.heap.dom());
    assert(m.collect().heap.dom() =~= closure(g, m.stack));
    vstd::set_lib::lemma_len_subset(m.collect().heap.dom(), m.heap.dom());
    assert forall|id: Id| #[trigger] m.collect().heap.contains_key(id) implies m.heap.contains_key(
        id,
    ) by {}
}

/// A collection keeps a memory well-formed, whether it takes place or not.
pub proof fn law_collection_keeps_wf(m: Memory)
    requires
        m.wf(),
    ensures
        m.collect().wf(),
{
    if m.can_collect() {
        law_collection_leaves_the_closure(m);
    }
}

/// A collection frees nothing that the stack reaches: where every identifier
/// on the stack and in a live structure was live, it still is afterwards.
pub proof fn law_collection_keeps_soundness(m: Memory)
    requires
        m.wf(),
        m.sound(),
    ensures
        m.collect().sound(),
{
    if m.can_collect() {
        let g = graph(m.heap);
        let live = closure(g, m.stack);
        law_collection_leaves_the_closure(m);
        lemma_closure_live(g, m.stack);
        lemma_closure_closed(g, m.stack);
        let after = m.collect();
        assert forall|i: int| 0 <= i < after.stack.len() implies after.heap.contains_key(
            #[trigger] after.stack[i],
        ) by {
            assert(m.heap.contains_key(m.stack[i]));
            assert(g.contains_key(m.stack[i]));
        }
        assert forall|id: Id, k: int|
            after.heap.contains_key(id) && 0 <= k < after.heap[id].value.children().len()
                implies after.heap.contains_key(#[trigger] after.heap[id].value.children()[k]) by {
            let kid = m.heap[id].value.children()[k];
            assert(live.contains(id));
            assert(m.heap.contains_key(id));
            assert(m.heap.contains_key(kid));
            assert(g[id].contains(kid));
            assert(edge(g, id, kid));
        }
    }
}

/// Collecting twice in a row is collecting once: the second pass finds the
/// live set of the first and frees nothing.
pub proof fn law_collection_is_idempotent(m: Memory)
    requires
        m.wf(),
    ensures
        m.collect().collect() == m.collect(),
{
    if m.can_collect() {
        let once = m.collect();
        law_collection_leaves_the_closure(m);
        lemma_closure_of_collected(m.heap, m.stack);
        assert(once.can_collect());
        assert(collected(once.heap, once.stack) =~= once.heap);
    }
}

/// An object that a collection frees leaves a stale identifier behind.
pub proof fn law_freed_identifier_is_stale(m: Memory, id: Id)
    requires
        m.wf(),
        m.can_collect(),
        m.heap.contains_key(id),
        !closure(graph(m.heap), m.stack).contains(id),
    ensures
        m.collect().stale(id),
{
    law_collection_leaves_the_closure(m);
    let kept = m.collect().heap.dom();
    assert(kept.subset_of(m.heap.dom()));
    assert(kept.subset_of(m.heap.dom().remove(id)));
    vstd::set_lib::lemma_len_subset(kept, m.heap.dom().remove(id));
}

/// A stale identifier stays stale: no operation on the memory stores an
/// object under it again, so a lookup of it finds nothing, now and later.
pub proof fn law_stale_identifier_stays_stale(m: Memory, id: Id)
    requires
        m.wf(),
        m.stale(id),
    ensures
        !m.heap.contains_key(id),
        m.collect().stale(id),
        m.push(id).stale(id),
        m.pop().stale(id),
        forall|on: bool| #[trigger] m.set_gc(on).stale(id),
        forall|value: ValueView, new: Id| m.fresh(new) ==> #[trigger] m.allocate(value, new).stale(id),
{
    law_collection_keeps_wf(m);
    if m.can_collect() {
        law_collection_leaves_the_closure(m);
    }
    assert forall|on: bool| #[trigger] m.set_gc(on).stale(id) by {
        let set = Memory { gc_enabled: on, ..m };
        law_collection_keeps_wf(set);
        if set.can_collect() {
            law_collection_leaves_the_closure(set);
        }
    }
    assert forall|value: ValueView, new: Id| m.fresh(new) implies #[trigger] m.allocate(
        value,
        new,
    ).stale(id) by {
        let grown = m.grown(value, new);
        assert(grown.wf());
        assert(grown.stale(id));
        if grown.can_collect() {
            law_collection_leaves_the_closure(grown);
        }
    }
}

/// What an allocation stores is live afterwards and on top of the stack,
/// also where the allocation sets off a collection.
pub proof fn law_allocation_survives(m: Memory, value: ValueView, fresh: Id)
    requires
        m.wf(),
        m.fresh(fresh),
    ensures
        m.allocate(value, fresh).wf(),
        m.allocate(value, fresh).stack == m.stack.push(fresh),
        m.allocate(value, fresh).heap.contains_key(fresh),
        m.allocate(value, fresh).heap[fresh] == (ObjectView { marked: false, index: fresh, value }),
{
    let grown = m.grown(value, fresh);
    assert(grown.wf());
    if grown.can_collect() {
        law_collection_leaves_the_closure(grown);
        lemma_closure_live(graph(grown.heap), grown.stack);
        assert(grown.stack[grown.stack.len() - 1] == fresh);
        assert(graph(grown.heap).contains_key(fresh));
    }
}

/// A structure gives back, field by field, the operands it was built from:
/// after `PushStruct(n)`, `GetStruct(i)` pushes the operand that was `i`-th
/// of the `n`, counted from the one pushed first.
pub proof fn law_struct_round_trip<R: Fn(u32) -> String>(
    m: Machine,
    n: usize,
    i: usize,
    fresh: Id,
    printer: R,
)
    requires
        m.memory.wf(),
        m.memory.fresh(fresh),
        n <= m.memory.stack.len(),
        i < n,
    ensures
        m.push_struct(n, fresh).result == Ok::<Flow, Fault>(Flow::Next),
        m.with(m.push_struct(n, fresh)).get_struct(i, printer).result == Ok::<Flow, Fault>(Flow::Next),
        m.with(m.push_struct(n, fresh)).get_struct(i, printer).memory.stack.last()
            == m.memory.stack[m.memory.stack.len() - n + i],
{
    let rest = m.memory.pop_many(n as int);
    let fields = m.memory.stack.skip(m.memory.stack.len() - n);
    assert(rest.wf());
    assert(rest.fresh(fresh));
    law_allocation_survives(rest, ValueView::Struct(fields), fresh);
}

/// An operation on fewer than two operands fails with stack underflow and
/// leaves the stack empty.
pub proof fn law_operation_underflows<A: Fn(Arith, u32, u32) -> u32, R: Fn(u32) -> String>(
    m: Machine,
    op: Operation,
    unit: A,
    printer: R,
    fresh: Id,
)
    requires
        m.memory.stack.len() < 2,
    ensures
        m.operate(op, unit, printer, fresh).result == Err::<Flow, Fault>(Fault::StackUnderflow),
        m.operate(op, unit, printer, fresh).memory == m.memory.drained(),
        m.operate(op, unit, printer, fresh).allocated is None,
{
}

/// An operation whose operands are not both of its kind fails, allocates
/// nothing and converts nothing: integer arithmetic takes integers only,
/// floating-point arithmetic floating-point values only, and a comparison
/// two integers or two floating-point values. The failure is a value
/// mismatch with the text of both operands where they have one.
pub proof fn law_operation_rejects_other_kinds<A: Fn(Arith, u32, u32) -> u32, R: Fn(u32) -> String>(
    m: Machine,
    op: Operation,
    unit: A,
    printer: R,
    fresh: Id,
)
    requires
        m.memory.stack.len() >= 2,
        m.memory.heap.contains_key(m.memory.stack[m.memory.stack.len() - 2]),
        m.memory.heap.contains_key(m.memory.stack.last()),
        !operands_fit(
            op,
            m.memory.heap[m.memory.stack[m.memory.stack.len() - 2]].value,
            m.memory.heap[m.memory.stack.last()].value,
        ),
    ensures
        m.operate(op, unit, printer, fresh).result is Err,
        m.operate(op, unit, printer, fresh).allocated is None,
        m.operate(op, unit, printer, fresh).memory == m.memory.pop_many(2),
        ({
            let a = m.memory.stack[m.memory.stack.len() - 2];
            let b = m.memory.stack.last();
            let depth = m.memory.heap.len();
            match (rendering(m.memory.heap, printer, a, depth), rendering(m.memory.heap, printer, b, depth)) {
                (Some(left), Some(right)) => m.operate(op, unit, printer, fresh).result == Err::<
                    Flow,
                    Fault,
                >(Fault::ValueMismatch(left + ", "@ + right)),
                _ => m.operate(op, unit, printer, fresh).result == Err::<Flow, Fault>(Fault::Rendering),
            }
        }),
{
}

/// An operation on two live operands of its kind stores its value and goes
/// on.
pub proof fn law_operation_on_fitting_operands<A: Fn(Arith, u32, u32) -> u32, R: Fn(u32) -> String>(
    m: Machine,
    op: Operation,
    unit: A,
    printer: R,
    fresh: Id,
)
    requires
        m.memory.wf(),
        m.memory.fresh(fresh),
        m.memory.stack.len() >= 2,
        m.memory.heap.contains_key(m.memory.stack[m.memory.stack.len() - 2]),
        m.memory.heap.contains_key(m.memory.stack.last()),
        operands_fit(
            op,
            m.memory.heap[m.memory.stack[m.memory.stack.len() - 2]].value,
            m.memory.heap[m.memory.stack.last()].value,
        ),
    ensures
        m.operate(op, unit, printer, fresh).result == Ok::<Flow, Fault>(Flow::Next),
        m.operate(op, unit, printer, fresh).memory.stack == m.memory.stack.take(
            m.memory.stack.len() - 2,
        ).push(fresh),
        m.operate(op, unit, printer, fresh).memory.heap.contains_key(fresh),
        Some(m.operate(op, unit, printer, fresh).memory.heap[fresh].value) == combine(
            unit,
            op,
            m.memory.heap[m.memory.stack[m.memory.stack.len() - 2]].value,
            m.memory.heap[m.memory.stack.last()].value,
        ),
{
    let a = m.memory.stack[m.memory.stack.len() - 2];
    let b = m.memory.stack.last();
    let rest = m.memory.pop_many(2);
    let value = combine(unit, op, m.memory.heap[a].value, m.memory.heap[b].value).unwrap();
    assert(rest.wf());
    assert(rest.fresh(fresh));
    law_allocation_survives(rest, value, fresh);
}

/// A jump, a call and a conditional jump to a label that is not bound fail
/// with that label unresolved, whatever the rest of the machine holds, and
/// leave the memory and the locals as they were.
pub proof fn law_unbound_label_is_unresolved<R: Fn(u32) -> String>(
    m: Machine,
    name: Seq<char>,
    n: usize,
    printer: R,
)
    requires
        !m.labels.contains_key(name),
    ensures
        m.jump(name) == m.failed(m.memory, Fault::UnresolvedLabel(name)),
        m.call(name, n) == m.failed(m.memory, Fault::UnresolvedLabel(name)),
        m.jump_if(name, printer) == m.failed(m.memory, Fault::UnresolvedLabel(name)),
{
}

/// A conditional jump to a bound label pops its operand; on the integer one
/// it jumps to the label, on the integer zero it goes on with the next
/// instruction, and on any other live value it fails: with a value mismatch
/// that holds the operand's text, where the operand has one.
pub proof fn law_conditional_jump<R: Fn(u32) -> String>(m: Machine, name: Seq<char>, printer: R)
    requires
        m.labels.contains_key(name),
        m.memory.stack.len() > 0,
        m.memory.heap.contains_key(m.memory.stack.last()),
    ensures
        m.jump_if(name, printer).memory == m.memory.pop(),
        m.jump_if(name, printer).locals == m.locals,
        ({
            let top = m.memory.stack.last();
            let value = m.memory.heap[top].value;
            let result = m.jump_if(name, printer).result;
            if value == ValueView::Int(1) {
                result == Ok::<Flow, Fault>(Flow::Jump(m.labels[name]))
            } else if value == ValueView::Int(0) {
                result == Ok::<Flow, Fault>(Flow::Next)
            } else {
                match rendering(m.memory.heap, printer, top, m.memory.heap.len()) {
                    Some(text) => result == Err::<Flow, Fault>(Fault::ValueMismatch(text)),
                    None => result == Err::<Flow, Fault>(Fault::Rendering),
                }
            }
        }),
{
}

/// After a jump the engine executes the instruction that the label stands
/// for; after an instruction that does not jump, the next one in load order.
pub proof fn law_step_follows_the_flow<A: Fn(Arith, u32, u32) -> u32, R: Fn(u32) -> String>(
    m: Machine,
    unit: A,
    printer: R,
    fresh: Id,
)
    requires
        m.fetch() is Some,
    ensures
        ({
            let effect = m.execute(m.fetch().unwrap(), unit, printer, fresh);
            let (next, status) = m.step(unit, printer, fresh);
            &&& next.memory == effect.memory
            &&& next.locals == effect.locals
            &&& next.code == m.code
            &&& next.labels == m.labels
            &&& effect.result matches Ok(Flow::Jump(at)) ==> status == Status::Running && next.ip
                == Some(at)
            &&& effect.result matches Ok(Flow::Next) ==> if m.ip.unwrap() + 1 < m.code.len() {
                status == Status::Running && next.ip == Some(m.ip.unwrap() + 1)
            } else {
                status == Status::Halted
            }
            &&& effect.result matches Ok(Flow::Stop) ==> status == Status::Halted
            &&& effect.result matches Err(fault) ==> status == Status::Failed(fault)
        }),
{
}

} // verus!
