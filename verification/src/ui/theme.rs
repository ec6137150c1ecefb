//! Colour schemes the interface can be switched between.
use vstd::prelude::*;

verus! {

/// A named colour scheme.
#[derive(Clone, Copy, Debug, Default, PartialEq, Eq, Structural)]
pub enum ThemeMode {
    #[default]
    Dark,
    Light,
    Nord,
    Matrix,
    Sunset,
    Dracula,
    Gruvbox,
    TokyoNight,
}

/// Position of a scheme in the cycle the theme key walks through.
pub open spec fn theme_code(m: ThemeMode) -> u8 {
    match m {
        ThemeMode::Dark => 0,
        ThemeMode::Light => 1,
        ThemeMode::Nord => 2,
        ThemeMode::Matrix => 3,
        ThemeMode::Sunset => 4,
        ThemeMode::Dracula => 5,
        ThemeMode::Gruvbox => 6,
        ThemeMode::TokyoNight => 7,
    }
}

/// The scheme stored under a code; unknown codes fall back to the dark scheme.
pub open spec fn theme_of_code(c: u8) -> ThemeMode {
    if c == 1 {
        ThemeMode::Light
    } else if c == 2 {
        ThemeMode::Nord
    } else if c == 3 {
        ThemeMode::Matrix
    } else if c == 4 {
        ThemeMode::Sunset
    } else if c == 5 {
        ThemeMode::Dracula
    } else if c == 6 {
        ThemeMode::Gruvbox
    } else if c == 7 {
        ThemeMode::TokyoNight
    } else {
        ThemeMode::Dark
    }
}

/// The scheme after `m` in the cycle.
pub open spec fn theme_next(m: ThemeMode) -> ThemeMode {
    match m {
        ThemeMode::Dark => ThemeMode::Light,
        ThemeMode::Light => ThemeMode::Nord,
        ThemeMode::Nord => ThemeMode::Matrix,
        ThemeMode::Matrix => ThemeMode::Sunset,
        ThemeMode::Sunset => ThemeMode::Dracula,
        ThemeMode::Dracula => ThemeMode::Gruvbox,
        ThemeMode::Gruvbox => ThemeMode::TokyoNight,
        ThemeMode::TokyoNight => ThemeMode::Dark,
    }
}

pub open spec fn theme_name(m: ThemeMode) -> Seq<char> {
    match m {
        ThemeMode::Dark => "Dark"@,
        ThemeMode::Light => "Light"@,
        ThemeMode::Nord => "Nord"@,
        ThemeMode::Matrix => "Matrix"@,
        ThemeMode::Sunset => "Sunset"@,
        ThemeMode::Dracula => "Dracula"@,
        ThemeMode::Gruvbox => "Gruvbox"@,
        ThemeMode::TokyoNight => "Tokyo Night"@,
    }
}

impl ThemeMode {
    /// The next scheme, wrapping from the last back to the dark one.
    pub fn next(self) -> (r: Self)
        ensures
            r == theme_next(self),
    {
        match self {
            ThemeMode::Dark => ThemeMode::Light,
            ThemeMode::Light => ThemeMode::Nord,
            ThemeMode::Nord => ThemeMode::Matrix,
            ThemeMode::Matrix => ThemeMode::Sunset,
            ThemeMode::Sunset => ThemeMode::Dracula,
            ThemeMode::Dracula => ThemeMode::Gruvbox,
            ThemeMode::Gruvbox => ThemeMode::TokyoNight,
            ThemeMode::TokyoNight => ThemeMode::Dark,
        }
    }

    /// The scheme's display name.
    pub fn name(self) -> (s: &'static str)
        ensures
            s@ == theme_name(self),
    {
        match self {
            ThemeMode::Dark => "Dark",
            ThemeMode::Light => "Light",
            ThemeMode::Nord => "Nord",
            ThemeMode::Matrix => "Matrix",
            ThemeMode::Sunset => "Sunset",
            ThemeMode::Dracula => "Dracula",
            ThemeMode::Gruvbox => "Gruvbox",
            ThemeMode::TokyoNight => "Tokyo Night",
        }
    }

    /// The code under which the current scheme is stored.
    pub fn code(self) -> (c: u8)
        ensures
            c == theme_code(self),
    {
        match self {
            ThemeMode::Dark => 0,
            ThemeMode::Light => 1,
            ThemeMode::Nord => 2,
            ThemeMode::Matrix => 3,
            ThemeMode::Sunset => 4,
            ThemeMode::Dracula => 5,
            ThemeMode::Gruvbox => 6,
            ThemeMode::TokyoNight => 7,
        }
    }

    /// The scheme stored under `c`; any code outside the cycle reads as dark.
    pub fn from_code(c: u8) -> (m: Self)
        ensures
            m == theme_of_code(c),
    {
        if c == 1 {
            ThemeMode::Light
        } else if c == 2 {
            ThemeMode::Nord
        } else if c == 3 {
            ThemeMode::Matrix
        } else if c == 4 {
            ThemeMode::Sunset
        } else if c == 5 {
            ThemeMode::Dracula
        } else if c == 6 {
            ThemeMode::Gruvbox
        } else if c == 7 {
            ThemeMode::TokyoNight
        } else {
            ThemeMode::Dark
        }
    }
}

/// A colour of a palette: the terminal's own default, or red, green and
/// blue components.
#[derive(Clone, Copy, Debug, PartialEq, Eq, Structural)]
pub enum PaletteColor {
    Reset,
    Rgb(u8, u8, u8),
}

/// The colours a scheme gives each role: healthy, warning and critical
/// levels, accents, the disk bar's fill, text, secondary text, the
/// background and the selected row.
#[derive(Clone, Copy, Debug, PartialEq, Eq, Structural)]
pub struct Theme {
    pub ok: PaletteColor,
    pub warn: PaletteColor,
    pub crit: PaletteColor,
    pub accent: PaletteColor,
    pub accent_dim: PaletteColor,
    pub disk_fill: PaletteColor,
    pub text: PaletteColor,
    pub muted: PaletteColor,
    pub bg: PaletteColor,
    pub selected_bg: PaletteColor,
    pub selected_fg: PaletteColor,
}

/// The colours of each scheme.
pub open spec fn palette_of(mode: ThemeMode) -> Theme {
    match mode {
        ThemeMode::Dark => Theme {
            ok: PaletteColor::Rgb(165, 213, 102),
            warn: PaletteColor::Rgb(235, 192, 109),
            crit: PaletteColor::Rgb(255, 180, 171),
            accent: PaletteColor::Rgb(146, 227, 218),
            accent_dim: PaletteColor::Rgb(118, 199, 190),
            disk_fill: PaletteColor::Rgb(255, 180, 166),
            text: PaletteColor::Rgb(227, 225, 237),
            muted: PaletteColor::Rgb(136, 147, 145),
            bg: PaletteColor::Reset,
            selected_bg: PaletteColor::Rgb(118, 199, 190),
            selected_fg: PaletteColor::Rgb(0, 32, 29),
        },
        ThemeMode::Light => Theme {
            ok: PaletteColor::Rgb(46, 125, 50),
            warn: PaletteColor::Rgb(245, 124, 0),
            crit: PaletteColor::Rgb(211, 47, 47),
            accent: PaletteColor::Rgb(25, 118, 210),
            accent_dim: PaletteColor::Rgb(30, 136, 229),
            disk_fill: PaletteColor::Rgb(171, 71, 188),
            text: PaletteColor::Rgb(33, 33, 33),
            muted: PaletteColor::Rgb(117, 117, 117),
            bg: PaletteColor::Rgb(245, 245, 245),
            selected_bg: PaletteColor::Rgb(25, 118, 210),
            selected_fg: PaletteColor::Rgb(255, 255, 255),
        },
        ThemeMode::Nord => Theme {
            ok: PaletteColor::Rgb(163, 190, 140),
            warn: PaletteColor::Rgb(235, 203, 139),
            crit: PaletteColor::Rgb(191, 97, 106),
            accent: PaletteColor::Rgb(136, 192, 208),
            accent_dim: PaletteColor::Rgb(129, 161, 193),
            disk_fill: PaletteColor::Rgb(180, 142, 173),
            text: PaletteColor::Rgb(236, 239, 244),
            muted: PaletteColor::Rgb(76, 86, 106),
            bg: PaletteColor::Reset,
            selected_bg: PaletteColor::Rgb(136, 192, 208),
            selected_fg: PaletteColor::Rgb(46, 52, 64),
        },
        ThemeMode::Matrix => Theme {
            ok: PaletteColor::Rgb(34, 179, 34),
            warn: PaletteColor::Rgb(138, 179, 34),
            crit: PaletteColor::Rgb(194, 48, 48),
            accent: PaletteColor::Rgb(57, 194, 57),
            accent_dim: PaletteColor::Rgb(23, 115, 23),
            disk_fill: PaletteColor::Rgb(46, 163, 46),
            text: PaletteColor::Rgb(77, 219, 77),
            muted: PaletteColor::Rgb(23, 115, 23),
            bg: PaletteColor::Rgb(10, 15, 10),
            selected_bg: PaletteColor::Rgb(34, 139, 34),
            selected_fg: PaletteColor::Rgb(255, 255, 255),
        },
        ThemeMode::Sunset => Theme {
            ok: PaletteColor::Rgb(233, 150, 122),
            warn: PaletteColor::Rgb(220, 118, 51),
            crit: PaletteColor::Rgb(203, 67, 53),
            accent: PaletteColor::Rgb(244, 208, 111),
            accent_dim: PaletteColor::Rgb(220, 118, 51),
            disk_fill: PaletteColor::Rgb(211, 84, 0),
            text: PaletteColor::Rgb(250, 243, 224),
            muted: PaletteColor::Rgb(147, 172, 149),
            bg: PaletteColor::Reset,
            selected_bg: PaletteColor::Rgb(244, 208, 111),
            selected_fg: PaletteColor::Rgb(46, 64, 87),
        },
        ThemeMode::Dracula => Theme {
            ok: PaletteColor::Rgb(106, 224, 137),
            warn: PaletteColor::Rgb(240, 245, 170),
            crit: PaletteColor::Rgb(245, 120, 120),
            accent: PaletteColor::Rgb(189, 147, 249),
            accent_dim: PaletteColor::Rgb(98, 114, 164),
            disk_fill: PaletteColor::Rgb(245, 150, 200),
            text: PaletteColor::Rgb(248, 248, 242),
            muted: PaletteColor::Rgb(139, 155, 204),
            bg: PaletteColor::Reset,
            selected_bg: PaletteColor::Rgb(68, 71, 90),
            selected_fg: PaletteColor::Rgb(248, 248, 242),
        },
        ThemeMode::Gruvbox => Theme {
            ok: PaletteColor::Rgb(184, 187, 38),
            warn: PaletteColor::Rgb(250, 189, 47),
            crit: PaletteColor::Rgb(251, 73, 52),
            accent: PaletteColor::Rgb(254, 128, 25),
            accent_dim: PaletteColor::Rgb(214, 93, 14),
            disk_fill: PaletteColor::Rgb(177, 98, 134),
            text: PaletteColor::Rgb(235, 219, 178),
            muted: PaletteColor::Rgb(146, 131, 116),
            bg: PaletteColor::Reset,
            selected_bg: PaletteColor::Rgb(80, 73, 69),
            selected_fg: PaletteColor::Rgb(235, 219, 178),
        },
        ThemeMode::TokyoNight => Theme {
            ok: PaletteColor::Rgb(158, 206, 106),
            warn: PaletteColor::Rgb(224, 175, 104),
            crit: PaletteColor::Rgb(247, 118, 142),
            accent: PaletteColor::Rgb(122, 162, 247),
            accent_dim: PaletteColor::Rgb(61, 89, 161),
            disk_fill: PaletteColor::Rgb(187, 154, 247),
            text: PaletteColor::Rgb(169, 177, 214),
            muted: PaletteColor::Rgb(86, 95, 137),
            bg: PaletteColor::Reset,
            selected_bg: PaletteColor::Rgb(51, 70, 124),
            selected_fg: PaletteColor::Rgb(192, 202, 245),
        },
    }
}

impl Theme {
    /// The palette of a scheme. In every scheme the healthy, warning and
    /// critical levels have three different colours.
    pub fn get_theme(mode: ThemeMode) -> (t: Theme)
        ensures
            t == palette_of(mode),
            t.ok != t.warn,
            t.warn != t.crit,
            t.ok != t.crit,
    {
        match mode {
            ThemeMode::Dark => Theme {
                ok: PaletteColor::Rgb(165, 213, 102),
                warn: PaletteColor::Rgb(235, 192, 109),
                crit: PaletteColor::Rgb(255, 180, 171),
                accent: PaletteColor::Rgb(146, 227, 218),
                accent_dim: PaletteColor::Rgb(118, 199, 190),
                disk_fill: PaletteColor::Rgb(255, 180, 166),
                text: PaletteColor::Rgb(227, 225, 237),
                muted: PaletteColor::Rgb(136, 147, 145),
                bg: PaletteColor::Reset,
                selected_bg: PaletteColor::Rgb(118, 199, 190),
                selected_fg: PaletteColor::Rgb(0, 32, 29),
            },
            ThemeMode::Light => Theme {
                ok: PaletteColor::Rgb(46, 125, 50),
                warn: PaletteColor::Rgb(245, 124, 0),
                crit: PaletteColor::Rgb(211, 47, 47),
                accent: PaletteColor::Rgb(25, 118, 210),
                accent_dim: PaletteColor::Rgb(30, 136, 229),
                disk_fill: PaletteColor::Rgb(171, 71, 188),
                text: PaletteColor::Rgb(33, 33, 33),
                muted: PaletteColor::Rgb(117, 117, 117),
                bg: PaletteColor::Rgb(245, 245, 245),
                selected_bg: PaletteColor::Rgb(25, 118, 210),
                selected_fg: PaletteColor::Rgb(255, 255, 255),
            },
            ThemeMode::Nord => Theme {
                ok: PaletteColor::Rgb(163, 190, 140),
                warn: PaletteColor::Rgb(235, 203, 139),
                crit: PaletteColor::Rgb(191, 97, 106),
                accent: PaletteColor::Rgb(136, 192, 208),
                accent_dim: PaletteColor::Rgb(129, 161, 193),
                disk_fill: PaletteColor::Rgb(180, 142, 173),
                text: PaletteColor::Rgb(236, 239, 244),
                muted: PaletteColor::Rgb(76, 86, 106),
                bg: PaletteColor::Reset,
                selected_bg: PaletteColor::Rgb(136, 192, 208),
                selected_fg: PaletteColor::Rgb(46, 52, 64),
            },
            ThemeMode::Matrix => Theme {
                ok: PaletteColor::Rgb(34, 179, 34),
                warn: PaletteColor::Rgb(138, 179, 34),
                crit: PaletteColor::Rgb(194, 48, 48),
                accent: PaletteColor::Rgb(57, 194, 57),
                accent_dim: PaletteColor::Rgb(23, 115, 23),
                disk_fill: PaletteColor::Rgb(46, 163, 46),
                text: PaletteColor::Rgb(77, 219, 77),
                muted: PaletteColor::Rgb(23, 115, 23),
                bg: PaletteColor::Rgb(10, 15, 10),
                selected_bg: PaletteColor::Rgb(34, 139, 34),
                selected_fg: PaletteColor::Rgb(255, 255, 255),
            },
            ThemeMode::Sunset => Theme {
                ok: PaletteColor::Rgb(233, 150, 122),
                warn: PaletteColor::Rgb(220, 118, 51),
                crit: PaletteColor::Rgb(203, 67, 53),
                accent: PaletteColor::Rgb(244, 208, 111),
                accent_dim: PaletteColor::Rgb(220, 118, 51),
                disk_fill: PaletteColor::Rgb(211, 84, 0),
                text: PaletteColor::Rgb(250, 243, 224),
                muted: PaletteColor::Rgb(147, 172, 149),
                bg: PaletteColor::Reset,
                selected_bg: PaletteColor::Rgb(244, 208, 111),
                selected_fg: PaletteColor::Rgb(46, 64, 87),
            },
            ThemeMode::Dracula => Theme {
                ok: PaletteColor::Rgb(106, 224, 137),
                warn: PaletteColor::Rgb(240, 245, 170),
                crit: PaletteColor::Rgb(245, 120, 120),
                accent: PaletteColor::Rgb(189, 147, 249),
                accent_dim: PaletteColor::Rgb(98, 114, 164),
                disk_fill: PaletteColor::Rgb(245, 150, 200),
                text: PaletteColor::Rgb(248, 248, 242),
                muted: PaletteColor::Rgb(139, 155, 204),
                bg: PaletteColor::Reset,
                selected_bg: PaletteColor::Rgb(68, 71, 90),
                selected_fg: PaletteColor::Rgb(248, 248, 242),
            },
            ThemeMode::Gruvbox => Theme {
                ok: PaletteColor::Rgb(184, 187, 38),
                warn: PaletteColor::Rgb(250, 189, 47),
                crit: PaletteColor::Rgb(251, 73, 52),
                accent: PaletteColor::Rgb(254, 128, 25),
                accent_dim: PaletteColor::Rgb(214, 93, 14),
                disk_fill: PaletteColor::Rgb(177, 98, 134),
                text: PaletteColor::Rgb(235, 219, 178),
                muted: PaletteColor::Rgb(146, 131, 116),
                bg: PaletteColor::Reset,
                selected_bg: PaletteColor::Rgb(80, 73, 69),
                selected_fg: PaletteColor::Rgb(235, 219, 178),
            },
            ThemeMode::TokyoNight => Theme {
                ok: PaletteColor::Rgb(158, 206, 106),
                warn: PaletteColor::Rgb(224, 175, 104),
                crit: PaletteColor::Rgb(247, 118, 142),
                accent: PaletteColor::Rgb(122, 162, 247),
                accent_dim: PaletteColor::Rgb(61, 89, 161),
                disk_fill: PaletteColor::Rgb(187, 154, 247),
                text: PaletteColor::Rgb(169, 177, 214),
                muted: PaletteColor::Rgb(86, 95, 137),
                bg: PaletteColor::Reset,
                selected_bg: PaletteColor::Rgb(51, 70, 124),
                selected_fg: PaletteColor::Rgb(192, 202, 245),
            },
        }
    }
}

/// Applies `theme_next` `k` times.
pub open spec fn theme_steps(m: ThemeMode, k: nat) -> ThemeMode
    decreases k,
{
    if k == 0 { m } else { theme_steps(theme_next(m), (k - 1) as nat) }
}

/// Storing a scheme by its code and reading it back gives the same scheme;
/// the theme key moves one place along the code cycle, so pressing it eight
/// times comes back to where it started.
pub proof fn law_theme_code_and_cycle(m: ThemeMode)
    ensures
        theme_of_code(theme_code(m)) == m,
        theme_code(m) < 8,
        theme_code(theme_next(m)) == (theme_code(m) + 1) % 8,
        theme_steps(m, 8) == m,
        theme_next(m) != m,
{
    reveal_with_fuel(theme_steps, 9);
}

} // verus!
