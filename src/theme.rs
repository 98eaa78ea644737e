//! Colour themes.
use vstd::prelude::*;

verus! {

/// The colour themes, cycled in this order.
#[derive(PartialEq, Eq, Structural, Clone, Copy, Debug)]
pub enum Theme {
    Dark,
    SolarizedDark,
    SolarizedLight,
}

impl Theme {
    /// The theme after this one.
    pub fn next(&self) -> (r: Theme)
        ensures
            r == match self {
                Theme::Dark => Theme::SolarizedDark,
                Theme::SolarizedDark => Theme::SolarizedLight,
                Theme::SolarizedLight => Theme::Dark,
            },
    {
        match self {
            Theme::Dark => Theme::SolarizedDark,
            Theme::SolarizedDark => Theme::SolarizedLight,
            Theme::SolarizedLight => Theme::Dark,
        }
    }
}

/// The Solarized palette.
#[derive(PartialEq, Eq, Structural, Clone, Copy, Debug)]
pub enum Solarized {
    Base03,
    Base02,
    Base01,
    Base00,
    Base0,
    Base1,
    Base2,
    Base3,
    Yellow,
    Orange,
    Red,
    Magenta,
    Violet,
    Blue,
    Cyan,
    Green,
}

impl Solarized {
    /// The colour as red, green and blue.
    pub fn rgb(&self) -> (r: (u8, u8, u8))
        ensures
            r == solarized_rgb(*self),
    {
        match self {
            Solarized::Base03 => (0, 43, 54),
            Solarized::Base02 => (7, 54, 66),
            Solarized::Base01 => (88, 110, 117),
            Solarized::Base00 => (101, 123, 131),
            Solarized::Base0 => (131, 148, 150),
            Solarized::Base1 => (147, 161, 161),
            Solarized::Base2 => (238, 232, 213),
            Solarized::Base3 => (253, 246, 227),
            Solarized::Yellow => (181, 137, 0),
            Solarized::Orange => (203, 75, 22),
            Solarized::Red => (220, 50, 47),
            Solarized::Magenta => (211, 54, 130),
            Solarized::Violet => (108, 113, 196),
            Solarized::Blue => (38, 139, 210),
            Solarized::Cyan => (42, 161, 152),
            Solarized::Green => (133, 153, 0),
        }
    }
}

/// The red, green and blue of each Solarized colour.
pub open spec fn solarized_rgb(c: Solarized) -> (u8, u8, u8) {
    match c {
        Solarized::Base03 => (0, 43, 54),
        Solarized::Base02 => (7, 54, 66),
        Solarized::Base01 => (88, 110, 117),
        Solarized::Base00 => (101, 123, 131),
        Solarized::Base0 => (131, 148, 150),
        Solarized::Base1 => (147, 161, 161),
        Solarized::Base2 => (238, 232, 213),
        Solarized::Base3 => (253, 246, 227),
        Solarized::Yellow => (181, 137, 0),
        Solarized::Orange => (203, 75, 22),
        Solarized::Red => (220, 50, 47),
        Solarized::Magenta => (211, 54, 130),
        Solarized::Violet => (108, 113, 196),
        Solarized::Blue => (38, 139, 210),
        Solarized::Cyan => (42, 161, 152),
        Solarized::Green => (133, 153, 0),
    }
}

} // verus!
