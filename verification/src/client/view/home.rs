//! The home page: sections of cards, with a style sheet.
use vstd::prelude::*;
use vstd::view::View as _;

verus! {

/// A named group of cards.
#[derive(Debug)]
pub struct Section<C> {
    pub name: String,
    pub cards: Vec<C>,
}

impl<C> Section<C> {
    pub fn new(name: String) -> (section: Self)
        ensures
            section.name@ == name@,
            section.cards@ == Seq::<C>::empty(),
    {
        Section { name, cards: Vec::new() }
    }

    pub fn with_card(self, card: C) -> (section: Self)
        ensures
            section.name@ == self.name@,
            section.cards@ == self.cards@.push(card),
    {
        let mut section = self;
        section.cards.push(card);
        section
    }
}

/// The sections of the page, in order, and the path of its style sheet.
#[derive(Debug)]
pub struct View<C> {
    pub sections: Vec<Section<C>>,
    pub style_path: &'static str,
}

impl<C> View<C> {
    pub fn new(style_path: &'static str) -> (view: Self)
        ensures
            view.sections@ == Seq::<Section<C>>::empty(),
            view.style_path@ == style_path@,
    {
        View { sections: Vec::new(), style_path }
    }

    pub fn with_section(self, section: Section<C>) -> (view: Self)
        ensures
            view.sections@ == self.sections@.push(section),
            view.style_path@ == self.style_path@,
    {
        let mut view = self;
        view.sections.push(section);
        view
    }
}

} // verus!
