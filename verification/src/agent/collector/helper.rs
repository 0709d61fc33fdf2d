//! A sender that asks a cache before it sends: metrics the cache holds back
//! are not sent.
use crate::agent::event::OneOrMany;
use crate::cache::{handle_all, is_duplicate, Cache, Metric};
use vstd::prelude::*;

verus! {

pub struct CachedSender<S> {
    cache: Cache,
    sender: S,
}

impl<S> CachedSender<S> {
    pub fn new(capacity: usize, ttl: u64, sender: S) -> (cached: Self)
        ensures
            cached.cache().entries() == Seq::<(u64, u64, u64)>::empty(),
            cached.cache().capacity() == capacity,
            cached.cache().time_to_live() == ttl,
            cached.sender() == sender,
    {
        CachedSender { cache: Cache::new(capacity, ttl), sender }
    }

    pub closed spec fn cache(&self) -> Cache {
        self.cache
    }

    pub closed spec fn sender(&self) -> S {
        self.sender
    }

    /// The channel the events go to.
    pub fn sender_ref(&self) -> (sender: &S)
        ensures
            *sender == self.sender(),
    {
        &self.sender
    }

    /// The event to send for `item`: itself unless the cache holds it back.
    pub fn prepare_one<P>(&mut self, item: Metric<P>) -> (event: Option<OneOrMany<Metric<P>>>)
        ensures
            final(self).sender() == old(self).sender(),
            final(self).cache().entries() == handle_all(
                old(self).cache().entries(),
                seq![item],
                old(self).cache().time_to_live(),
            ).0,
            final(self).cache().capacity() == old(self).cache().capacity(),
            final(self).cache().time_to_live() == old(self).cache().time_to_live(),
            event == (if is_duplicate(old(self).cache().entries(), item, old(self).cache().time_to_live()) {
                None
            } else {
                Some(OneOrMany::One(item))
            }),
    {
        proof {
            let one = seq![item];
            assert(one.drop_last() =~= Seq::<Metric<P>>::empty());
            let s = self.cache.entries();
            let ttl = self.cache.time_to_live();
            assert(handle_all(s, Seq::<Metric<P>>::empty(), ttl) == (s, Seq::<Metric<P>>::empty()));
        }
        match self.cache.handle(item) {
            Some(item) => Some(OneOrMany::One(item)),
            None => None,
        }
    }

    /// The event to send for `items`: those the cache lets through, in order,
    /// or nothing when none passes.
    pub fn prepare_many<P>(&mut self, items: Vec<Metric<P>>) -> (event: Option<OneOrMany<Metric<P>>>)
        ensures
            final(self).sender() == old(self).sender(),
            final(self).cache().entries() == handle_all(
                old(self).cache().entries(),
                items@,
                old(self).cache().time_to_live(),
            ).0,
            final(self).cache().capacity() == old(self).cache().capacity(),
            final(self).cache().time_to_live() == old(self).cache().time_to_live(),
            match event {
                Some(out) => {
                    &&& out is Many
                    &&& out.items() == handle_all(
                        old(self).cache().entries(),
                        items@,
                        old(self).cache().time_to_live(),
                    ).1
                    &&& out.items().len() > 0
                },
                None => handle_all(
                    old(self).cache().entries(),
                    items@,
                    old(self).cache().time_to_live(),
                ).1.len() == 0,
            },
    {
        let items = self.cache.handle_iter(items);
        if items.len() == 0 {
            None
        } else {
            Some(OneOrMany::Many(items))
        }
    }
}

} // verus!
