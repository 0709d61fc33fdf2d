//! Card sizes.
use vstd::prelude::*;

verus! {

#[derive(Clone, Copy, Debug, PartialEq, Eq, Structural)]
pub enum Size {
    Sm,
    Md,
}

pub open spec fn size_text(size: Size) -> Seq<char> {
    match size {
        Size::Sm => "sm"@,
        Size::Md => "md"@,
    }
}

impl Size {
    pub fn as_str(&self) -> (text: &'static str)
        ensures
            text@ == size_text(*self),
    {
        match self {
            Size::Sm => "sm",
            Size::Md => "md",
        }
    }
}

/// The width and height of a card.
#[derive(Clone, Copy, Debug, PartialEq, Eq, Structural)]
pub struct Dimension {
    pub width: Size,
    pub height: Size,
}

impl Dimension {
    pub fn new(width: Size, height: Size) -> (dimension: Self)
        ensures
            dimension == (Dimension { width, height }),
    {
        Dimension { width, height }
    }

    /// The class attribute of a card of this dimension: `x-<width> y-<height>`.
    pub fn class_name(&self) -> (text: String)
        ensures
            text@ == "x-"@ + size_text(self.width) + " y-"@ + size_text(self.height),
    {
        let text = String::from_str("x-");
        let text = text.concat(self.width.as_str());
        let text = text.concat(" y-");
        text.concat(self.height.as_str())
    }
}

} // verus!
