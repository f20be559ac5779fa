use vstd::prelude::*;
use crate::id::Id;
use crate::traits::Tree;
use crate::value::{Value, ValueView};

verus! {

/// A heap record: a value, the mark bit of the collector, and the record's
/// own identifier.
#[derive(Debug)]
pub struct Object {
    pub marked: bool,
    pub index: Id,
    pub value: Value,
}

/// The mathematical content of an [`Object`].
pub struct ObjectView {
    pub marked: bool,
    pub index: Id,
    pub value: ValueView,
}

impl View for Object {
    type V = ObjectView;

    open spec fn view(&self) -> ObjectView {
        ObjectView { marked: self.marked, index: self.index, value: self.value@ }
    }
}

/// The content of each stored record.
pub open spec fn views(objs: Map<Id, Object>) -> Map<Id, ObjectView> {
    Map::new(|id: Id| objs.contains_key(id), |id: Id| objs[id]@)
}

impl Object {
    /// A fresh, unmarked record for `value` stored under `index`.
    pub fn new(index: Id, value: Value) -> (obj: Object)
        ensures
            obj == (Object { marked: false, index, value }),
    {
        Object { value, index, marked: false }
    }
}

impl Tree<Id> for Object {
    open spec fn child_seq(&self) -> Seq<Id> {
        self.value.child_seq()
    }

    fn children(&self) -> (kids: Vec<Id>) {
        self.value.children()
    }
}

} // verus!
