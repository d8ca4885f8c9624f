use vstd::prelude::*;

verus! {

/// Number of supported terrain themes.
pub const THEME_COUNT: usize = 8;

/// A terrain style; selects the placement table and the atlas.
#[derive(Debug, Clone, Copy, PartialEq, Eq, Structural)]
pub enum Theme {
    Badlands,
    Platform,
    Install,
    Ashworld,
    Jungle,
    Desert,
    Ice,
    Twilight,
}

impl Theme {
    /// Position of the theme in the fixed order of the bundled resources.
    pub open spec fn spec_index(self) -> usize {
        match self {
            Theme::Badlands => 0,
            Theme::Platform => 1,
            Theme::Install => 2,
            Theme::Ashworld => 3,
            Theme::Jungle => 4,
            Theme::Desert => 5,
            Theme::Ice => 6,
            Theme::Twilight => 7,
        }
    }

    #[verifier::when_used_as_spec(spec_index)]
    pub fn index(self) -> (r: usize)
        ensures
            r == self.spec_index(),
            r < THEME_COUNT,
    {
        match self {
            Theme::Badlands => 0,
            Theme::Platform => 1,
            Theme::Install => 2,
            Theme::Ashworld => 3,
            Theme::Jungle => 4,
            Theme::Desert => 5,
            Theme::Ice => 6,
            Theme::Twilight => 7,
        }
    }

    /// The theme at position `n`, for `n` below `THEME_COUNT`.
    pub open spec fn at(n: usize) -> Theme {
        if n == 0 {
            Theme::Badlands
        } else if n == 1 {
            Theme::Platform
        } else if n == 2 {
            Theme::Install
        } else if n == 3 {
            Theme::Ashworld
        } else if n == 4 {
            Theme::Jungle
        } else if n == 5 {
            Theme::Desert
        } else if n == 6 {
            Theme::Ice
        } else {
            Theme::Twilight
        }
    }

    /// The theme at position `n`, if there is one.
    pub fn from_index(n: usize) -> (r: Option<Theme>)
        ensures
            r is Some <==> n < THEME_COUNT,
            n < THEME_COUNT ==> r == Some(Theme::at(n)) && Theme::at(n).spec_index() == n,
    {
        match n {
            0 => Some(Theme::Badlands),
            1 => Some(Theme::Platform),
            2 => Some(Theme::Install),
            3 => Some(Theme::Ashworld),
            4 => Some(Theme::Jungle),
            5 => Some(Theme::Desert),
            6 => Some(Theme::Ice),
            7 => Some(Theme::Twilight),
            _ => None,
        }
    }
}

} // verus!
