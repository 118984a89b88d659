use vstd::prelude::*;

verus! {

/// Adding one item at the end of a collection, by value.
pub trait Append<T>: Sized {
    /// The collection with `item` added at its end.
    fn append_(self, item: T) -> Self;
}

impl<T> Append<T> for Vec<T> {
    fn append_(self, item: T) -> (extended: Vec<T>)
        ensures
            extended@ == self@.push(item),
    {
        let mut items = self;
        items.push(item);
        items
    }
}

} // verus!
