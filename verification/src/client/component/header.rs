//! The page header: a title and optional content.
use vstd::prelude::*;

verus! {

pub struct Header<C> {
    pub title: String,
    pub content: Option<C>,
}

impl<C> Header<C> {
    pub fn new(title: String) -> (header: Self)
        ensures
            header.title@ == title@,
            header.content is None,
    {
        Header { title, content: None }
    }

    pub fn with_content(self, content: C) -> (header: Self)
        ensures
            header.title@ == self.title@,
            header.content == Some(content),
    {
        let mut header = self;
        header.content = Some(content);
        header
    }
}

} // verus!
