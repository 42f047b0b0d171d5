//! The parts of the dashboard's theme that are plain integers: the light or
//! dark mode that the user or the terminal asks for, the classic ANSI colors,
//! the `COLORFGBG` hint and the default palette. Deriving the surface and text
//! colors from them is floating-point work and happens outside this library.
use vstd::prelude::*;

use crate::text::{ascii_lower, ascii_lowercase, parse_u8, parse_unsigned, pieces, split_char, str_eq, string_views};

verus! {

/// Whether the terminal has a light or a dark background.
#[derive(Debug, Clone, Copy, PartialEq, Eq, Structural)]
pub enum ThemeMode {
    Light,
    Dark,
}

/// A color by its red, green and blue components.
#[derive(Debug, Clone, Copy, PartialEq, Eq, Structural)]
pub struct RgbColor {
    pub r: u8,
    pub g: u8,
    pub b: u8,
}

/// The colors that the theme starts from.
#[derive(Debug, Clone, Copy, PartialEq, Eq, Structural)]
pub struct PaletteSeed {
    pub foreground: RgbColor,
    pub background: RgbColor,
    pub mode: ThemeMode,
}

/// The mode that the `OC_THEME` setting asks for: `light` or `dark` in any
/// ASCII case; anything else, or no setting, asks for none.
pub open spec fn override_mode_spec(value: Option<Seq<char>>) -> Option<ThemeMode> {
    match value {
        Some(v) => if ascii_lower(v) == "light"@ {
            Some(ThemeMode::Light)
        } else if ascii_lower(v) == "dark"@ {
            Some(ThemeMode::Dark)
        } else {
            None
        },
        None => None,
    }
}

/// The mode that the `OC_THEME` setting asks for.
pub fn theme_mode_from_override(value: Option<&str>) -> (r: Option<ThemeMode>)
    ensures
        r == override_mode_spec(
            match value {
                Some(v) => Some(v@),
                None => None,
            },
        ),
{
    let v = match value {
        Some(v) => v,
        None => return None,
    };
    let lowered = ascii_lowercase(v);
    if str_eq(lowered.as_str(), "light") {
        Some(ThemeMode::Light)
    } else if str_eq(lowered.as_str(), "dark") {
        Some(ThemeMode::Dark)
    } else {
        None
    }
}

/// The color of an ANSI palette index as xterm shows it; indices past
/// fourteen are white.
pub open spec fn ansi_rgb_spec(index: u8) -> RgbColor {
    let (r, g, b) = if index == 0 {
        (0x00u8, 0x00u8, 0x00u8)
    } else if index == 1 {
        (0xcdu8, 0x00u8, 0x00u8)
    } else if index == 2 {
        (0x00u8, 0xcdu8, 0x00u8)
    } else if index == 3 {
        (0xcdu8, 0xcdu8, 0x00u8)
    } else if index == 4 {
        (0x00u8, 0x00u8, 0xeeu8)
    } else if index == 5 {
        (0xcdu8, 0x00u8, 0xcdu8)
    } else if index == 6 {
        (0x00u8, 0xcdu8, 0xcdu8)
    } else if index == 7 {
        (0xe5u8, 0xe5u8, 0xe5u8)
    } else if index == 8 {
        (0x7fu8, 0x7fu8, 0x7fu8)
    } else if index == 9 {
        (0xffu8, 0x00u8, 0x00u8)
    } else if index == 10 {
        (0x00u8, 0xffu8, 0x00u8)
    } else if index == 11 {
        (0xffu8, 0xffu8, 0x00u8)
    } else if index == 12 {
        (0x5cu8, 0x5cu8, 0xffu8)
    } else if index == 13 {
        (0xffu8, 0x00u8, 0xffu8)
    } else if index == 14 {
        (0x00u8, 0xffu8, 0xffu8)
    } else {
        (0xffu8, 0xffu8, 0xffu8)
    };
    RgbColor { r, g, b }
}

fn rgb(r: u8, g: u8, b: u8) -> (c: RgbColor)
    ensures
        c == (RgbColor { r, g, b }),
{
    RgbColor { r, g, b }
}

/// The color of an ANSI palette index.
pub fn ansi_index_rgb(index: u8) -> (c: RgbColor)
    ensures
        c == ansi_rgb_spec(index),
{
    match index {
        0 => rgb(0x00, 0x00, 0x00),
        1 => rgb(0xcd, 0x00, 0x00),
        2 => rgb(0x00, 0xcd, 0x00),
        3 => rgb(0xcd, 0xcd, 0x00),
        4 => rgb(0x00, 0x00, 0xee),
        5 => rgb(0xcd, 0x00, 0xcd),
        6 => rgb(0x00, 0xcd, 0xcd),
        7 => rgb(0xe5, 0xe5, 0xe5),
        8 => rgb(0x7f, 0x7f, 0x7f),
        9 => rgb(0xff, 0x00, 0x00),
        10 => rgb(0x00, 0xff, 0x00),
        11 => rgb(0xff, 0xff, 0x00),
        12 => rgb(0x5c, 0x5c, 0xff),
        13 => rgb(0xff, 0x00, 0xff),
        14 => rgb(0x00, 0xff, 0xff),
        _ => rgb(0xff, 0xff, 0xff),
    }
}

/// The numbers among the pieces, in order: those that read as a `u8`.
pub open spec fn byte_numbers(ps: Seq<Seq<char>>) -> Seq<u8>
    decreases ps.len(),
{
    if ps.len() == 0 {
        seq![]
    } else {
        byte_numbers(ps.drop_last()) + match parse_unsigned(ps.last(), u8::MAX as nat) {
            Some(v) => seq![v as u8],
            None => seq![],
        }
    }
}

/// The foreground and background indices that a `COLORFGBG` value gives: the
/// last two of its `;`-separated numbers.
pub open spec fn colorfgbg_spec(value: Seq<char>) -> Option<(u8, u8)> {
    let n = byte_numbers(pieces(value, ';'));
    if n.len() >= 2 {
        Some((n[n.len() - 2], n[n.len() - 1]))
    } else {
        None
    }
}

/// The foreground and background indices that a `COLORFGBG` value gives.
pub fn parse_colorfgbg_indices(value: &str) -> (r: Option<(u8, u8)>)
    ensures
        r == colorfgbg_spec(value@),
{
    let parts = split_char(value, ';');
    let ghost pv = string_views(parts@);
    let mut numbers: Vec<u8> = Vec::new();
    let mut i: usize = 0;
    while i < parts.len()
        invariant
            i <= parts.len(),
            pv == string_views(parts@),
            pv == pieces(value@, ';'),
            numbers@ == byte_numbers(pv.take(i as int)),
        decreases parts.len() - i,
    {
        assert(pv.take(i + 1).drop_last() =~= pv.take(i as int));
        assert(pv.take(i + 1).last() == parts@[i as int]@);
        match parse_u8(parts[i].as_str()) {
            Some(v) => {
                numbers.push(v);
            },
            None => {},
        }
        i = i + 1;
        assert(numbers@ =~= byte_numbers(pv.take(i as int)));
    }
    assert(pv.take(parts.len() as int) =~= pv);
    let n = numbers.len();
    if n >= 2 {
        Some((numbers[n - 2], numbers[n - 1]))
    } else {
        None
    }
}

/// The palette that a `COLORFGBG` value suggests: the ANSI colors of its two
/// indices, dark when the background is one of the first seven colors or the
/// bright black, light otherwise.
pub open spec fn colorfgbg_seed_spec(value: Seq<char>) -> Option<PaletteSeed> {
    match colorfgbg_spec(value) {
        Some((f, b)) => Some(
            PaletteSeed {
                foreground: ansi_rgb_spec(f),
                background: ansi_rgb_spec(b),
                mode: if b <= 6 || b == 8 {
                    ThemeMode::Dark
                } else {
                    ThemeMode::Light
                },
            },
        ),
        None => None,
    }
}

/// The palette that a `COLORFGBG` value suggests.
pub fn palette_seed_from_colorfgbg(value: &str) -> (r: Option<PaletteSeed>)
    ensures
        r == colorfgbg_seed_spec(value@),
{
    match parse_colorfgbg_indices(value) {
        Some((f, b)) => Some(
            PaletteSeed {
                foreground: ansi_index_rgb(f),
                background: ansi_index_rgb(b),
                mode: if b <= 6 || b == 8 {
                    ThemeMode::Dark
                } else {
                    ThemeMode::Light
                },
            },
        ),
        None => None,
    }
}

/// The palette used when the terminal reports none: near-black on warm white
/// in light mode, warm white on near-black in dark mode.
pub open spec fn default_seed_spec(mode: ThemeMode) -> PaletteSeed {
    match mode {
        ThemeMode::Light => PaletteSeed {
            foreground: RgbColor { r: 0x22, g: 0x22, b: 0x22 },
            background: RgbColor { r: 0xf7, g: 0xf4, b: 0xf3 },
            mode,
        },
        ThemeMode::Dark => PaletteSeed {
            foreground: RgbColor { r: 0xe8, g: 0xe6, b: 0xe3 },
            background: RgbColor { r: 0x14, g: 0x16, b: 0x1a },
            mode,
        },
    }
}

/// The palette used when the terminal reports none.
pub fn default_palette_seed(mode: ThemeMode) -> (r: PaletteSeed)
    ensures
        r == default_seed_spec(mode),
{
    match mode {
        ThemeMode::Light => PaletteSeed {
            foreground: rgb(0x22, 0x22, 0x22),
            background: rgb(0xf7, 0xf4, 0xf3),
            mode,
        },
        ThemeMode::Dark => PaletteSeed {
            foreground: rgb(0xe8, 0xe6, 0xe3),
            background: rgb(0x14, 0x16, 0x1a),
            mode,
        },
    }
}

/// The mode the theme is built for: the one the user asks for, else the one
/// the terminal reports, else the one `COLORFGBG` hints at, else dark.
pub open spec fn theme_mode_spec(
    override_mode: Option<ThemeMode>,
    detected: Option<PaletteSeed>,
    colorfgbg: Option<PaletteSeed>,
) -> ThemeMode {
    match override_mode {
        Some(m) => m,
        None => match detected {
            Some(p) => p.mode,
            None => match colorfgbg {
                Some(p) => p.mode,
                None => ThemeMode::Dark,
            },
        },
    }
}

/// The palette the theme starts from: the terminal's, else the one from
/// `COLORFGBG`, else the default for the mode.
pub open spec fn theme_palette_spec(
    mode: ThemeMode,
    detected: Option<PaletteSeed>,
    colorfgbg: Option<PaletteSeed>,
) -> PaletteSeed {
    match detected {
        Some(p) => p,
        None => match colorfgbg {
            Some(p) => p,
            None => default_seed_spec(mode),
        },
    }
}

/// The mode and the palette that the theme is built from, given what the
/// user, the terminal and `COLORFGBG` say.
pub fn choose_theme_seed(
    override_mode: Option<ThemeMode>,
    detected: Option<PaletteSeed>,
    colorfgbg: Option<PaletteSeed>,
) -> (r: (ThemeMode, PaletteSeed))
    ensures
        r.0 == theme_mode_spec(override_mode, detected, colorfgbg),
        r.1 == theme_palette_spec(r.0, detected, colorfgbg),
{
    let mode = match override_mode {
        Some(m) => m,
        None => match detected {
            Some(p) => p.mode,
            None => match colorfgbg {
                Some(p) => p.mode,
                None => ThemeMode::Dark,
            },
        },
    };
    let palette = match detected {
        Some(p) => p,
        None => match colorfgbg {
            Some(p) => p,
            None => default_palette_seed(mode),
        },
    };
    (mode, palette)
}

} // verus!
