use gc_vm::id::Id;
use gc_vm::object::Object;
use gc_vm::traits::Tree;
use gc_vm::value::Value;
use gc_vm::vm::VM;

fn printer(bits: u32) -> String {
    format!("{}", f32::from_bits(bits))
}

fn push(vm: &mut VM, value: Value) -> Id {
    vm.push_value(value);
    vm.top().unwrap()
}

fn int_of(vm: &VM, id: Id) -> i32 {
    match vm.get(id).unwrap().value {
        Value::Int(i) => i,
        _ => panic!("no integer"),
    }
}

#[test]
fn new_memory_is_empty() {
    let vm = VM::new(10);
    assert_eq!(vm.len(), 0);
    assert_eq!(vm.top(), None);
    assert!(vm.get(Id::new(0, 0)).is_none());
}

#[test]
fn push_value_stores_and_pushes() {
    let mut vm = VM::new(10);
    let a = push(&mut vm, Value::Int(7));
    let b = push(&mut vm, Value::Float(1.5f32.to_bits()));
    assert_ne!(a, b);
    assert_eq!(vm.len(), 2);
    assert_eq!(vm.top(), Some(b));
    let object = vm.get(a).unwrap();
    assert_eq!(object.index, a);
    assert!(!object.marked);
    assert!(matches!(object.value, Value::Int(7)));
    assert!(matches!(vm.get(b).unwrap().value, Value::Float(bits) if bits == 1.5f32.to_bits()));
}

#[test]
fn pop_returns_the_top_and_none_when_empty() {
    let mut vm = VM::new(10);
    let a = push(&mut vm, Value::Int(1));
    let b = push(&mut vm, Value::Int(2));
    assert_eq!(vm.pop(), Some(b));
    assert_eq!(vm.top(), Some(a));
    assert_eq!(vm.pop(), Some(a));
    assert_eq!(vm.pop(), None);
    assert_eq!(vm.top(), None);
    assert_eq!(vm.len(), 2);
}

#[test]
fn take_keeps_push_order_and_drains_on_underflow() {
    let mut vm = VM::new(10);
    let a = push(&mut vm, Value::Int(1));
    let b = push(&mut vm, Value::Int(2));
    let c = push(&mut vm, Value::Int(3));
    assert_eq!(vm.take(2), Some(vec![b, c]));
    assert_eq!(vm.top(), Some(a));
    assert_eq!(vm.take(0), Some(vec![]));
    assert_eq!(vm.take(2), None);
    assert_eq!(vm.top(), None);
}

#[test]
fn collection_leaves_exactly_what_the_stack_reaches() {
    let mut vm = VM::new(100);
    let kept_leaf = push(&mut vm, Value::Int(1));
    let garbage_leaf = push(&mut vm, Value::Int(2));
    let shared = push(&mut vm, Value::Int(3));
    let inner = push(&mut vm, Value::Struct(vec![kept_leaf, shared]));
    let outer = push(&mut vm, Value::Struct(vec![inner, shared]));
    let garbage_struct = push(&mut vm, Value::Struct(vec![garbage_leaf]));
    let root_leaf = push(&mut vm, Value::Int(4));
    for _ in 0..7 {
        vm.pop();
    }
    vm.push(outer);
    vm.push(root_leaf);
    assert_eq!(vm.len(), 7);
    vm.garbage_collect();
    assert_eq!(vm.len(), 5);
    for id in [kept_leaf, shared, inner, outer, root_leaf] {
        let object = vm.get(id).unwrap();
        assert!(!object.marked);
        assert_eq!(object.index, id);
    }
    assert!(vm.get(garbage_leaf).is_none());
    assert!(vm.get(garbage_struct).is_none());
    assert_eq!(int_of(&vm, kept_leaf), 1);
    assert_eq!(int_of(&vm, shared), 3);
    assert_eq!(vm.top(), Some(root_leaf));
    assert_eq!(vm.display(outer, &printer).unwrap(), "Struct(Struct(1i, 3i), 3i)");
}

#[test]
fn collection_of_an_empty_heap_does_nothing() {
    let mut vm = VM::new(0);
    vm.garbage_collect();
    assert_eq!(vm.len(), 0);
    vm.gc(true);
    assert_eq!(vm.len(), 0);
}

#[test]
fn collection_with_an_empty_stack_frees_everything() {
    let mut vm = VM::new(100);
    let a = push(&mut vm, Value::Int(1));
    let s = push(&mut vm, Value::Struct(vec![a]));
    vm.pop();
    vm.pop();
    vm.garbage_collect();
    assert_eq!(vm.len(), 0);
    assert!(vm.get(a).is_none());
    assert!(vm.get(s).is_none());
}

#[test]
fn collecting_twice_is_collecting_once() {
    let mut vm = VM::new(100);
    let a = push(&mut vm, Value::Int(1));
    let b = push(&mut vm, Value::Int(2));
    let s = push(&mut vm, Value::Struct(vec![a]));
    vm.pop();
    vm.pop();
    vm.pop();
    vm.push(s);
    vm.garbage_collect();
    assert_eq!(vm.len(), 2);
    assert!(vm.get(b).is_none());
    vm.garbage_collect();
    assert_eq!(vm.len(), 2);
    assert!(vm.get(a).is_some());
    assert!(vm.get(s).is_some());
    assert!(vm.get(b).is_none());
    assert_eq!(vm.top(), Some(s));
}

#[test]
fn allocation_above_the_threshold_collects() {
    let mut vm = VM::new(2);
    let a = push(&mut vm, Value::Int(1));
    vm.pop();
    let b = push(&mut vm, Value::Int(2));
    assert_eq!(vm.len(), 2);
    let c = push(&mut vm, Value::Int(3));
    assert_eq!(vm.len(), 2);
    assert!(vm.get(a).is_none());
    assert!(vm.get(b).is_some());
    assert!(vm.get(c).is_some());
    assert_eq!(vm.top(), Some(c));
}

#[test]
fn allocation_at_the_threshold_does_not_collect() {
    let mut vm = VM::new(2);
    let a = push(&mut vm, Value::Int(1));
    vm.pop();
    push(&mut vm, Value::Int(2));
    assert_eq!(vm.len(), 2);
    assert!(vm.get(a).is_some());
}

#[test]
fn switched_off_collection_frees_nothing() {
    let mut vm = VM::new(1);
    vm.gc(false);
    let a = push(&mut vm, Value::Int(1));
    vm.pop();
    let b = push(&mut vm, Value::Int(2));
    vm.pop();
    push(&mut vm, Value::Int(3));
    vm.garbage_collect();
    assert_eq!(vm.len(), 3);
    assert!(vm.get(a).is_some());
    assert!(vm.get(b).is_some());
}

#[test]
fn switching_collection_on_above_the_threshold_collects_at_once() {
    let mut vm = VM::new(1);
    vm.gc(false);
    let a = push(&mut vm, Value::Int(1));
    vm.pop();
    let b = push(&mut vm, Value::Int(2));
    vm.gc(true);
    assert_eq!(vm.len(), 1);
    assert!(vm.get(a).is_none());
    assert!(vm.get(b).is_some());
}

#[test]
fn switching_collection_on_below_the_threshold_keeps_garbage() {
    let mut vm = VM::new(5);
    vm.gc(false);
    let a = push(&mut vm, Value::Int(1));
    vm.pop();
    vm.gc(true);
    assert_eq!(vm.len(), 1);
    assert!(vm.get(a).is_some());
}

#[test]
fn a_freed_identifier_is_stale_even_when_its_slot_is_used_again() {
    let mut vm = VM::new(100);
    let old = push(&mut vm, Value::Int(11));
    vm.pop();
    vm.garbage_collect();
    assert!(vm.get(old).is_none());
    let mut seen_same_slot = false;
    for i in 0..8 {
        let new = push(&mut vm, Value::Int(100 + i));
        assert_ne!(new, old);
        assert!(new.generation > old.generation);
        if new.slot == old.slot {
            seen_same_slot = true;
            assert_eq!(int_of(&vm, new), 100 + i);
        }
        assert!(vm.get(old).is_none());
        assert!(vm.get_mut(old).is_none());
    }
    assert!(seen_same_slot);
    vm.garbage_collect();
    assert!(vm.get(old).is_none());
}

#[test]
fn a_stale_root_is_passed_over() {
    let mut vm = VM::new(100);
    let gone = push(&mut vm, Value::Int(1));
    vm.pop();
    vm.garbage_collect();
    let kept = push(&mut vm, Value::Int(2));
    vm.push(gone);
    vm.push(Id::new(1000, 3));
    vm.garbage_collect();
    assert_eq!(vm.len(), 1);
    assert!(vm.get(kept).is_some());
    assert_eq!(vm.top(), Some(Id::new(1000, 3)));
}

#[test]
fn a_structure_with_a_dead_field_survives_but_has_no_text() {
    let mut vm = VM::new(100);
    let gone = push(&mut vm, Value::Int(1));
    vm.pop();
    vm.garbage_collect();
    let s = push(&mut vm, Value::Struct(vec![gone]));
    vm.garbage_collect();
    assert!(vm.get(s).is_some());
    assert_eq!(vm.display(s, &printer), None);
    assert_eq!(vm.display(gone, &printer), None);
}

#[test]
fn get_mut_gives_write_access() {
    let mut vm = VM::new(100);
    let a = push(&mut vm, Value::Int(1));
    match vm.get_mut(a) {
        Some(object) => object.value = Value::Int(5),
        None => panic!("object missing"),
    }
    assert_eq!(int_of(&vm, a), 5);
    assert_eq!(vm.len(), 1);
}

#[test]
fn a_cycle_has_no_text_and_is_collected_whole() {
    let mut vm = VM::new(100);
    let a = push(&mut vm, Value::Struct(vec![]));
    let b = push(&mut vm, Value::Struct(vec![a]));
    vm.get_mut(a).unwrap().value = Value::Struct(vec![b]);
    assert_eq!(vm.display(a, &printer), None);
    vm.pop();
    vm.garbage_collect();
    assert_eq!(vm.len(), 2);
    vm.pop();
    vm.garbage_collect();
    assert_eq!(vm.len(), 0);
}

#[test]
fn text_of_values() {
    let mut vm = VM::new(100);
    let i = push(&mut vm, Value::Int(-12));
    let f = push(&mut vm, Value::Float(2.5f32.to_bits()));
    let empty = push(&mut vm, Value::Struct(vec![]));
    let one = push(&mut vm, Value::Struct(vec![i]));
    let nested = push(&mut vm, Value::Struct(vec![one, f, empty, i]));
    assert_eq!(vm.display(i, &printer).unwrap(), "-12i");
    assert_eq!(vm.display(f, &printer).unwrap(), "2.5f");
    assert_eq!(vm.display(empty, &printer).unwrap(), "Struct()");
    assert_eq!(vm.display(one, &printer).unwrap(), "Struct(-12i)");
    assert_eq!(
        vm.display(nested, &printer).unwrap(),
        "Struct(Struct(-12i), 2.5f, Struct(), -12i)"
    );
}

#[test]
fn text_of_extreme_integers() {
    let mut vm = VM::new(100);
    for (value, text) in [
        (0, "0i"),
        (9, "9i"),
        (10, "10i"),
        (-1, "-1i"),
        (1234567890, "1234567890i"),
        (i32::MAX, "2147483647i"),
        (i32::MIN, "-2147483648i"),
    ] {
        let id = push(&mut vm, Value::Int(value));
        assert_eq!(vm.display(id, &printer).unwrap(), text);
        assert_eq!(vm.display(id, &printer).unwrap(), format!("{}i", value));
    }
}

#[test]
fn text_of_a_deep_chain() {
    let mut vm = VM::new(100);
    let mut id = push(&mut vm, Value::Int(1));
    let mut expected = String::from("1i");
    for _ in 0..20 {
        id = push(&mut vm, Value::Struct(vec![id]));
        expected = format!("Struct({})", expected);
    }
    assert_eq!(vm.display(id, &printer).unwrap(), expected);
}

#[test]
fn children_of_values_and_objects() {
    let a = Id::new(1, 0);
    let b = Id::new(2, 5);
    assert_eq!(Value::Int(1).children(), vec![]);
    assert_eq!(Value::Float(0).children(), vec![]);
    assert_eq!(Value::Struct(vec![a, b, a]).children(), vec![a, b, a]);
    let object = Object::new(b, Value::Struct(vec![b, a]));
    assert_eq!(object.children(), vec![b, a]);
    assert_eq!(object.index, b);
    assert!(!object.marked);
}

#[test]
fn a_copy_of_a_value_has_the_same_content() {
    let a = Id::new(1, 0);
    let value = Value::Struct(vec![a, a]);
    assert!(matches!(value.clone(), Value::Struct(fields) if fields == vec![a, a]));
    assert!(matches!(Value::Int(3).duplicate(), Value::Int(3)));
    assert!(matches!(Value::Float(9).clone(), Value::Float(9)));
}

#[test]
fn many_allocations_with_a_small_threshold_stay_bounded() {
    let mut vm = VM::new(3);
    let keep = push(&mut vm, Value::Int(0));
    for i in 0..1000 {
        push(&mut vm, Value::Int(i));
        vm.pop();
        assert!(vm.len() <= 4);
    }
    assert_eq!(int_of(&vm, keep), 0);
    assert_eq!(vm.top(), Some(keep));
}
