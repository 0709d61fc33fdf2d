//! The dashboard page: sections of cards.
use vstd::prelude::*;
use vstd::view::View as _;

verus! {

/// A named group of cards.
#[derive(Debug)]
pub struct Section<C> {
    pub name: String,
    pub cards: Vec<C>,
}

impl<C> Section<C> {
    pub fn new(name: String) -> (section: Self)
        ensures
            section.name@ == name@,
            section.cards@ == Seq::<C>::empty(),
    {
        Section { name, cards: Vec::new() }
    }

    pub fn add_card(&mut self, card: C)
        ensures
            final(self).name@ == old(self).name@,
            final(self).cards@ == old(self).cards@.push(card),
    {
        self.cards.push(card);
    }

    pub fn with_card(self, card: C) -> (section: Self)
        ensures
            section.name@ == self.name@,
            section.cards@ == self.cards@.push(card),
    {
        let mut section = self;
        section.cards.push(card);
        section
    }

    /// Adds the card when there is one.
    pub fn maybe_with_card(self, card: Option<C>) -> (section: Self)
        ensures
            section.name@ == self.name@,
            section.cards@ == (match card {
                Some(c) => self.cards@.push(c),
                None => self.cards@,
            }),
    {
        let mut section = self;
        if let Some(inner) = card {
            section.cards.push(inner);
        }
        section
    }
}

/// The sections of the page, in order.
#[derive(Debug)]
pub struct View<C> {
    pub sections: Vec<Section<C>>,
}

impl<C> View<C> {
    pub fn new(sections: Vec<Section<C>>) -> (view: Self)
        ensures
            view.sections@ == sections@,
    {
        View { sections }
    }

    pub fn with_section(self, section: Section<C>) -> (view: Self)
        ensures
            view.sections@ == self.sections@.push(section),
    {
        let mut view = self;
        view.sections.push(section);
        view
    }
}

impl<C> Default for View<C> {
    fn default() -> (view: Self)
        ensures
            view.sections@ == Seq::<Section<C>>::empty(),
    {
        View { sections: Vec::new() }
    }
}

} // verus!
