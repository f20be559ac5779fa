//! What this crate assumes of `generational_arena`.
//!
//! The functions marked `external_body` are not proved. Each makes one call
//! into the arena and states, over the names declared here, what the arena's
//! source shows of that call. The heap and the instruction store hold items
//! of different types, so each has its own names and its own functions.

use vstd::prelude::*;
use generational_arena::Arena;
use crate::id::Id;
use crate::instruction::Instruction;
use crate::object::Object;
use crate::value::Value;

verus! {

/// `generational_arena::Arena`, opaque to the verifier.
#[verifier::external_type_specification]
#[verifier::external_body]
#[verifier::reject_recursive_types(T)]
pub struct ExArena<T>(Arena<T>);

/// The entries a heap arena holds: each identifier for which a lookup
/// succeeds, with the record stored under it.
pub uninterp spec fn heap_objects(a: Arena<Object>) -> Map<Id, Object>;

/// The heap arena's generation counter: the generation that the next inserted
/// entry receives. It starts at zero and grows by one with every removal.
pub uninterp spec fn heap_generation(a: Arena<Object>) -> u64;

/// A heap without entries.
pub open spec fn no_objects() -> Map<Id, Object> {
    Map::empty()
}

/// What the sweep does to a record it keeps: the mark is cleared.
pub open spec fn unmark(obj: Object) -> Object {
    Object { marked: false, index: obj.index, value: obj.value }
}

/// The entries that survive a sweep of `objects`: the marked ones, unmarked.
pub open spec fn swept(objects: Map<Id, Object>) -> Map<Id, Object> {
    Map::new(
        |id: Id| objects.contains_key(id) && objects[id].marked,
        |id: Id| unmark(objects[id]),
    )
}

/// The sweep's decision on one record: a marked record is kept and its mark
/// cleared, an unmarked one is given up untouched.
pub fn sweep_visit(obj: &mut Object) -> (keep: bool)
    ensures
        keep == old(obj).marked,
        keep ==> *final(obj) == unmark(*old(obj)),
        !keep ==> *final(obj) == *old(obj),
{
    if obj.marked {
        obj.marked = false;
        true
    } else {
        false
    }
}

/// `Arena::new`: an arena without entries whose generation counter is zero.
#[verifier::external_body]
pub(crate) fn heap_new() -> (a: Arena<Object>)
    ensures
        heap_objects(a) == no_objects(),
        heap_generation(a) == 0,
{
    Arena::new()
}

/// `Arena::len`: the number of entries.
#[verifier::external_body]
pub(crate) fn heap_len(a: &Arena<Object>) -> (n: usize)
    requires
        heap_objects(*a).dom().finite(),
    ensures
        n == heap_objects(*a).dom().len(),
{
    a.len()
}

/// `Arena::get`: the record stored under `id`, or `None` when the slot is
/// free, out of range or holds an entry of another generation.
#[verifier::external_body]
pub(crate) fn heap_get(a: &Arena<Object>, id: Id) -> (r: Option<&Object>)
    ensures
        r.is_some() == heap_objects(*a).contains_key(id),
        r.is_some() ==> *r.unwrap() == heap_objects(*a)[id],
{
    a.get(generational_arena::Index::from_raw_parts(id.slot, id.generation))
}

/// `Arena::get_mut`: as `Arena::get`, with write access to the record. The
/// arena afterwards holds under `id` whatever the caller left in the record;
/// no other entry and not the generation counter changes.
#[verifier::external_body]
pub(crate) fn heap_get_mut(a: &mut Arena<Object>, id: Id) -> (r: Option<&mut Object>)
    ensures
        r.is_some() == heap_objects(*old(a)).contains_key(id),
        r.is_some() ==> *r.unwrap() == heap_objects(*old(a))[id],
        r.is_some() ==> heap_objects(*final(a)) == heap_objects(*old(a)).insert(
            id,
            *final(r.unwrap()),
        ),
        r.is_none() ==> heap_objects(*final(a)) == heap_objects(*old(a)),
        heap_generation(*final(a)) == heap_generation(*old(a)),
{
    a.get_mut(generational_arena::Index::from_raw_parts(id.slot, id.generation))
}

/// `Arena::insert_with`, handed a closure that builds the record from the
/// identifier it is given: the new entry's identifier was not in use, carries
/// the current generation, and the record stored under it knows that
/// identifier. The generation counter stays.
#[verifier::external_body]
pub(crate) fn heap_insert_with(a: &mut Arena<Object>, value: Value) -> (id: Id)
    ensures
        !heap_objects(*old(a)).contains_key(id),
        id.generation == heap_generation(*old(a)),
        heap_objects(*final(a)) == heap_objects(*old(a)).insert(
            id,
            (Object { marked: false, index: id, value }),
        ),
        heap_generation(*final(a)) == heap_generation(*old(a)),
{
    let index = a.insert_with(|idx| {
        let (slot, generation) = idx.into_raw_parts();
        Object::new(Id::new(slot, generation), value)
    });
    let (slot, generation) = index.into_raw_parts();
    Id::new(slot, generation)
}

/// `Arena::retain`, handed [`sweep_visit`]: every entry is visited once; the
/// entries for which the visit answers `false` are removed, and each removal
/// raises the generation counter by one. The counter must have room for one
/// step per entry.
#[verifier::external_body]
pub(crate) fn heap_retain_marked(a: &mut Arena<Object>)
    requires
        heap_objects(*old(a)).dom().finite(),
        heap_generation(*old(a)) + heap_objects(*old(a)).dom().len() <= u64::MAX,
    ensures
        heap_objects(*final(a)) == swept(heap_objects(*old(a))),
        heap_generation(*final(a)) == heap_generation(*old(a)) + heap_objects(
            *old(a),
        ).dom().len() - swept(heap_objects(*old(a))).dom().len(),
{
    a.retain(|_, obj| sweep_visit(obj))
}

/// The occupied slots of an instruction arena: each with the generation and
/// the instruction of its entry.
pub uninterp spec fn code_slots(a: Arena<Instruction>) -> Map<usize, (u64, Instruction)>;

/// The free list of an instruction arena: the free slots, in the order in
/// which insertions will take them.
pub uninterp spec fn code_free(a: Arena<Instruction>) -> Seq<usize>;

/// An instruction arena without entries.
pub open spec fn no_code() -> Map<usize, (u64, Instruction)> {
    Map::empty()
}

/// The slots `0` to `n - 1`, ascending.
pub open spec fn first_slots(n: usize) -> Seq<usize> {
    Seq::new(n as nat, |i: int| i as usize)
}

/// `Arena::with_capacity`: an arena without entries whose free list holds
/// the slots from zero up to the capacity, ascending. A capacity of zero is
/// taken as one.
#[verifier::external_body]
pub(crate) fn code_with_capacity(n: usize) -> (a: Arena<Instruction>)
    ensures
        code_slots(a) == no_code(),
        code_free(a) == first_slots(if n == 0 { 1 } else { n }),
{
    Arena::with_capacity(n)
}

/// `Arena::insert`: the entry goes to a slot that was free. While the free
/// list is not empty, that slot is its head, and the rest of the list stays.
#[verifier::external_body]
pub(crate) fn code_insert(a: &mut Arena<Instruction>, instr: Instruction) -> (id: Id)
    ensures
        !code_slots(*old(a)).contains_key(id.slot),
        code_slots(*final(a)) == code_slots(*old(a)).insert(id.slot, (id.generation, instr)),
        code_free(*old(a)).len() > 0 ==> id.slot == code_free(*old(a))[0] && code_free(*final(a))
            == code_free(*old(a)).drop_first(),
{
    let (slot, generation) = a.insert(instr).into_raw_parts();
    Id::new(slot, generation)
}

/// `Arena::get`: the instruction in the slot of `id`, or `None` when the
/// slot is free, out of range or holds an entry of another generation.
#[verifier::external_body]
pub(crate) fn code_get(a: &Arena<Instruction>, id: Id) -> (r: Option<&Instruction>)
    ensures
        r.is_some() == (code_slots(*a).contains_key(id.slot) && code_slots(*a)[id.slot].0
            == id.generation),
        r.is_some() ==> *r.unwrap() == code_slots(*a)[id.slot].1,
{
    a.get(generational_arena::Index::from_raw_parts(id.slot, id.generation))
}

/// `Arena::get_unknown_gen`: the identifier of the entry in `slot`, or `None`
/// when the slot is free or out of range.
#[verifier::external_body]
pub(crate) fn code_id_at(a: &Arena<Instruction>, slot: usize) -> (r: Option<Id>)
    ensures
        r.is_some() == code_slots(*a).contains_key(slot),
        r.is_some() ==> r.unwrap() == (Id { slot, generation: code_slots(*a)[slot].0 }),
{
    a.get_unknown_gen(slot).map(
        |found| {
            let (slot, generation) = found.1.into_raw_parts();
            Id::new(slot, generation)
        },
    )
}

} // verus!
