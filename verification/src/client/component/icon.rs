//! Icons of the remix icon font.
use vstd::prelude::*;

verus! {

#[derive(Clone, Copy, Debug, PartialEq, Eq, Structural)]
pub enum IconKind {
    Battery,
    Dashboard,
    Sun,
    TemperatureHot,
    Time,
    Water,
}

pub open spec fn icon_kind_text(kind: IconKind) -> Seq<char> {
    match kind {
        IconKind::Battery => "ri-battery-2-line"@,
        IconKind::Dashboard => "ri-dashboard-2-line"@,
        IconKind::Sun => "ri-sun-line"@,
        IconKind::TemperatureHot => "ri-temp-hot-line"@,
        IconKind::Time => "ri-time-line"@,
        IconKind::Water => "ri-drop-line"@,
    }
}

impl IconKind {
    pub fn as_str(&self) -> (text: &'static str)
        ensures
            text@ == icon_kind_text(*self),
    {
        match self {
            IconKind::Battery => "ri-battery-2-line",
            IconKind::Dashboard => "ri-dashboard-2-line",
            IconKind::Sun => "ri-sun-line",
            IconKind::TemperatureHot => "ri-temp-hot-line",
            IconKind::Time => "ri-time-line",
            IconKind::Water => "ri-drop-line",
        }
    }
}

#[derive(Clone, Copy, Debug, PartialEq, Eq, Structural)]
pub enum IconSize {
    Md,
}

pub open spec fn icon_size_text(size: IconSize) -> Seq<char> {
    match size {
        IconSize::Md => "ri-1x"@,
    }
}

impl IconSize {
    pub fn as_str(&self) -> (text: &'static str)
        ensures
            text@ == icon_size_text(*self),
    {
        match self {
            IconSize::Md => "ri-1x",
        }
    }
}

impl Default for IconSize {
    fn default() -> (size: IconSize)
        ensures
            size == IconSize::Md,
    {
        IconSize::Md
    }
}

#[derive(Clone, Copy, Debug, PartialEq, Eq, Structural)]
pub struct Icon {
    pub kind: IconKind,
    pub size: IconSize,
}

impl Icon {
    /// An icon of the default size.
    pub fn new(kind: IconKind) -> (icon: Self)
        ensures
            icon == (Icon { kind, size: IconSize::Md }),
    {
        Icon { kind, size: IconSize::Md }
    }

    /// The class attribute of the icon: `icon <kind> <size>`.
    pub fn class_name(&self) -> (text: String)
        ensures
            text@ == "icon "@ + icon_kind_text(self.kind) + " "@ + icon_size_text(self.size),
    {
        let text = String::from_str("icon ");
        let text = text.concat(self.kind.as_str());
        let text = text.concat(" ");
        text.concat(self.size.as_str())
    }
}

} // verus!
