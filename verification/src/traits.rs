use vstd::prelude::*;
use generational_arena::Arena;
use crate::arena::heap_objects;
use crate::id::Id;
use crate::object::{views, Object, ObjectView};
use crate::text::is_printer;

verus! {

/// A node of a reference graph: it can list the nodes it points to directly.
pub trait Tree<T> {
    /// The direct children, in field order.
    spec fn child_seq(&self) -> Seq<T>;

    /// Returns the direct children, in field order.
    fn children(&self) -> (kids: Vec<T>)
        ensures
            kids@ == self.child_seq(),
    ;
}

/// Something that has a text once the heap it refers into is at hand.
pub trait DisplayArena<R: Fn(u32) -> String> {
    /// The text, or `None` where an identifier met on the way is not live or
    /// structures are nested more than `depth` deep.
    spec fn text(&self, heap: Map<Id, ObjectView>, printer: R, depth: nat) -> Option<Seq<char>>;

    /// Produces the text, reading the objects referred to from `arena` and
    /// the text of floating-point values from `printer`.
    fn display_arena(&self, arena: &Arena<Object>, printer: &R, depth: usize) -> (r: Option<String>)
        requires
            is_printer(*printer),
        ensures
            r matches Some(s) ==> self.text(views(heap_objects(*arena)), *printer, depth as nat)
                == Some(s@),
            r is None ==> self.text(views(heap_objects(*arena)), *printer, depth as nat) is None,
    ;
}

} // verus!
