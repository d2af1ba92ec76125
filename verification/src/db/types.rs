//! A list that is kept as one value of a table.

use vstd::prelude::*;

verus! {

/// A list that a table keeps in one column.
#[derive(Debug)]
pub struct JsonVec<T>(pub Vec<T>);

impl<T> View for JsonVec<T> {
    type V = Seq<T>;

    open spec fn view(&self) -> Seq<T> {
        self.0@
    }
}

impl<T> JsonVec<T> {
    /// The list `vec`, to be kept in one column.
    pub fn new(vec: Vec<T>) -> (r: JsonVec<T>)
        ensures
            r@ == vec@,
    {
        JsonVec(vec)
    }

    /// The list itself.
    pub fn into_inner(self) -> (r: Vec<T>)
        ensures
            r@ == self@,
    {
        self.0
    }
}

} // verus!
