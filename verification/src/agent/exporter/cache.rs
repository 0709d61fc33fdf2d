//! A layer in front of a handler that drops the metrics the cache holds back.
use crate::agent::event::OneOrMany;
use crate::cache::{handle_all, is_duplicate, Cache, Metric};
use vstd::prelude::*;

verus! {

pub struct CacheLayer<H> {
    cache: Cache,
    handler: H,
}

impl<H> CacheLayer<H> {
    pub fn new(cache_size: usize, cache_ttl: u64, handler: H) -> (layer: Self)
        ensures
            layer.cache().entries() == Seq::<(u64, u64, u64)>::empty(),
            layer.cache().capacity() == cache_size,
            layer.cache().time_to_live() == cache_ttl,
            layer.handler() == handler,
    {
        CacheLayer { cache: Cache::new(cache_size, cache_ttl), handler }
    }

    pub closed spec fn cache(&self) -> Cache {
        self.cache
    }

    pub closed spec fn handler(&self) -> H {
        self.handler
    }

    /// The handler that receives what passes.
    pub fn handler_mut(&mut self) -> (handler: &mut H)
        ensures
            *handler == old(self).handler(),
            final(self).handler() == *final(handler),
            final(self).cache() == old(self).cache(),
    {
        &mut self.handler
    }

    /// The metrics of a batch that the cache lets through, in order, or
    /// nothing when none passes.
    pub fn filter_many<P>(&mut self, values: Vec<Metric<P>>) -> (passed: Option<Vec<Metric<P>>>)
        ensures
            final(self).handler() == old(self).handler(),
            final(self).cache().entries() == handle_all(
                old(self).cache().entries(),
                values@,
                old(self).cache().time_to_live(),
            ).0,
            final(self).cache().capacity() == old(self).cache().capacity(),
            final(self).cache().time_to_live() == old(self).cache().time_to_live(),
            match passed {
                Some(items) => items@ == handle_all(
                    old(self).cache().entries(),
                    values@,
                    old(self).cache().time_to_live(),
                ).1 && items@.len() > 0,
                None => handle_all(
                    old(self).cache().entries(),
                    values@,
                    old(self).cache().time_to_live(),
                ).1.len() == 0,
            },
    {
        let values = self.cache.handle_iter(values);
        if values.len() == 0 {
            None
        } else {
            Some(values)
        }
    }

    /// What of `event` the cache lets through, keeping its shape, or nothing
    /// when none of it passes.
    pub fn filter_event<P>(&mut self, event: OneOrMany<Metric<P>>) -> (passed: Option<OneOrMany<Metric<P>>>)
        ensures
            final(self).handler() == old(self).handler(),
            final(self).cache().entries() == handle_all(
                old(self).cache().entries(),
                event.items(),
                old(self).cache().time_to_live(),
            ).0,
            final(self).cache().capacity() == old(self).cache().capacity(),
            final(self).cache().time_to_live() == old(self).cache().time_to_live(),
            match passed {
                Some(out) => {
                    &&& out.items() == handle_all(
                        old(self).cache().entries(),
                        event.items(),
                        old(self).cache().time_to_live(),
                    ).1
                    &&& out.items().len() > 0
                    &&& (out is One <==> event is One)
                },
                None => handle_all(
                    old(self).cache().entries(),
                    event.items(),
                    old(self).cache().time_to_live(),
                ).1.len() == 0,
            },
    {
        match event {
            OneOrMany::One(item) => {
                let ghost s = self.cache.entries();
                let ghost ttl = self.cache.time_to_live();
                proof {
                    let one = seq![item];
                    assert(one.drop_last() =~= Seq::<Metric<P>>::empty());
                    assert(handle_all(s, Seq::<Metric<P>>::empty(), ttl) == (
                        s,
                        Seq::<Metric<P>>::empty(),
                    ));
                    assert(!is_duplicate(s, item, ttl) ==> Seq::<Metric<P>>::empty().push(item)
                        =~= one);
                }
                match self.cache.handle(item) {
                    Some(item) => Some(OneOrMany::One(item)),
                    None => None,
                }
            },
            OneOrMany::Many(values) => {
                match self.filter_many(values) {
                    Some(values) => Some(OneOrMany::Many(values)),
                    None => None,
                }
            },
        }
    }
}

} // verus!
