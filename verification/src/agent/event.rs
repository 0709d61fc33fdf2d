//! One metric or a batch of metrics, as they travel from collectors to exporters.
use vstd::prelude::*;

verus! {

/// A single item or a batch of items.
#[derive(Debug)]
pub enum OneOrMany<T> {
    One(T),
    Many(Vec<T>),
}

impl<T> OneOrMany<T> {
    /// The items carried, in order.
    pub open spec fn items(self) -> Seq<T> {
        match self {
            OneOrMany::One(item) => seq![item],
            OneOrMany::Many(items) => items@,
        }
    }

    /// The number of items carried.
    pub fn len(&self) -> (n: usize)
        ensures
            n == self.items().len(),
    {
        match self {
            OneOrMany::One(_) => 1,
            OneOrMany::Many(items) => items.len(),
        }
    }

    /// The items carried, as a vector.
    pub fn into_vec(self) -> (items: Vec<T>)
        ensures
            items@ == self.items(),
    {
        match self {
            OneOrMany::One(item) => {
                let mut items = Vec::new();
                items.push(item);
                items
            },
            OneOrMany::Many(items) => items,
        }
    }
}

} // verus!
