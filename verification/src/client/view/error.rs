//! The error page: a message.
use vstd::prelude::*;
use vstd::view::View as _;

verus! {

#[derive(Debug)]
pub struct View {
    pub message: String,
}

impl View {
    pub fn new(message: String) -> (view: Self)
        ensures
            view.message@ == message@,
    {
        View { message }
    }
}

impl Default for View {
    fn default() -> (view: Self)
        ensures
            view.message@ == Seq::<char>::empty(),
    {
        View { message: String::new() }
    }
}

} // verus!
