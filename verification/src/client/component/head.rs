//! The page head: title and style sheet.
use vstd::prelude::*;

verus! {

pub struct Head {
    pub title: String,
    pub style_path: &'static str,
}

impl Head {
    pub fn new(title: String, style_path: &'static str) -> (head: Self)
        ensures
            head.title@ == title@,
            head.style_path@ == style_path@,
    {
        Head { title, style_path }
    }

    /// The text of the page's `<title>`: the site's name, then the title.
    pub fn title_text(&self) -> (text: String)
        ensures
            text@ == "🏠 Chez Moi - "@ + self.title@,
    {
        let text = String::from_str("🏠 Chez Moi - ");
        text.concat(self.title.as_str())
    }
}

} // verus!
