use vstd::prelude::*;
use crate::id::Id;
use crate::traits::Tree;

verus! {

/// A storable value. A `Float` holds the IEEE 754 binary32 bit pattern of the
/// number; a `Struct` holds references to objects, never values.
#[derive(Debug)]
pub enum Value {
    Int(i32),
    Float(u32),
    Struct(Vec<Id>),
}

/// The mathematical content of a [`Value`].
pub enum ValueView {
    Int(i32),
    Float(u32),
    Struct(Seq<Id>),
}

impl ValueView {
    /// The identifiers this value refers to directly.
    pub open spec fn children(self) -> Seq<Id> {
        match self {
            ValueView::Struct(fields) => fields,
            _ => Seq::empty(),
        }
    }
}

impl View for Value {
    type V = ValueView;

    open spec fn view(&self) -> ValueView {
        match self {
            Value::Int(i) => ValueView::Int(*i),
            Value::Float(bits) => ValueView::Float(*bits),
            Value::Struct(fields) => ValueView::Struct(fields@),
        }
    }
}

/// Copies a sequence of identifiers.
pub fn copy_ids(ids: &Vec<Id>) -> (out: Vec<Id>)
    ensures
        out@ == ids@,
{
    let mut out: Vec<Id> = Vec::with_capacity(ids.len());
    let mut i: usize = 0;
    while i < ids.len()
        invariant
            i <= ids.len(),
            out@ == ids@.take(i as int),
        decreases ids.len() - i,
    {
        out.push(ids[i]);
        i += 1;
    }
    out
}

impl Value {
    /// An independent copy with the same content.
    pub fn duplicate(&self) -> (out: Value)
        ensures
            out@ == self@,
    {
        match self {
            Value::Int(i) => Value::Int(*i),
            Value::Float(bits) => Value::Float(*bits),
            Value::Struct(fields) => Value::Struct(copy_ids(fields)),
        }
    }
}

impl Clone for Value {
    fn clone(&self) -> (out: Value)
        ensures
            out@ == self@,
    {
        self.duplicate()
    }
}

impl Tree<Id> for Value {
    open spec fn child_seq(&self) -> Seq<Id> {
        self@.children()
    }

    fn children(&self) -> (kids: Vec<Id>) {
        match self {
            Value::Struct(fields) => copy_ids(fields),
            Value::Int(_) | Value::Float(_) => Vec::new(),
        }
    }
}

} // verus!
