//! Direct exporter: every event goes to the handler as it comes.
use vstd::prelude::*;

verus! {

#[derive(Debug)]
pub struct DirectExporter<H> {
    handler: H,
}

impl<H> DirectExporter<H> {
    pub fn new(handler: H) -> (exporter: Self)
        ensures
            exporter.handler() == handler,
    {
        DirectExporter { handler }
    }

    pub closed spec fn handler(&self) -> H {
        self.handler
    }

    /// The handler that receives the events.
    pub fn handler_mut(&mut self) -> (handler: &mut H)
        ensures
            *handler == old(self).handler(),
            final(self).handler() == *final(handler),
    {
        &mut self.handler
    }
}

} // verus!
