//! The design tokens: the colours of the two themes, and the fonts.

use vstd::prelude::*;

use crate::text::{holds_text, texts};

verus! {

/// The colours of a theme, each as `0xRRGGBB`.
#[derive(Debug, Clone, Copy, PartialEq, Eq, Structural)]
pub struct Theme {
    pub dark: bool,
    pub primary: u32,
    pub on_primary: u32,
    pub primary_container: u32,
    pub on_primary_container: u32,
    pub surface: u32,
    pub surface_container: u32,
    pub window_background: u32,
    pub on_surface: u32,
    pub on_surface_variant: u32,
    pub outline: u32,
    pub outline_variant: u32,
    pub error: u32,
    pub error_container: u32,
    pub on_error_container: u32,
    pub success: u32,
}

/// How a window looks, as the system reports it.
#[derive(Debug, Clone, Copy, PartialEq, Eq, Structural)]
pub enum WindowAppearance {
    Light,
    VibrantLight,
    Dark,
    VibrantDark,
}

impl Theme {
    pub open spec fn bright() -> Theme {
        Theme {
            dark: false,
            primary: 0x0B57D0,
            on_primary: 0xFFFFFF,
            primary_container: 0xD3E3FD,
            on_primary_container: 0x041E49,
            surface: 0xFFFFFF,
            surface_container: 0xF0F4F9,
            window_background: 0xF8FAFD,
            on_surface: 0x1F1F1F,
            on_surface_variant: 0x444746,
            outline: 0x747775,
            outline_variant: 0xC4C7C5,
            error: 0xB3261E,
            error_container: 0xF9DEDC,
            on_error_container: 0x410E0B,
            success: 0x146C2E,
        }
    }

    pub open spec fn dim() -> Theme {
        Theme {
            dark: true,
            primary: 0xA8C7FA,
            on_primary: 0x062E6F,
            primary_container: 0x0842A0,
            on_primary_container: 0xD3E3FD,
            surface: 0x1E1F20,
            surface_container: 0x28292A,
            window_background: 0x131314,
            on_surface: 0xE3E3E3,
            on_surface_variant: 0xC4C7C5,
            outline: 0x8E918F,
            outline_variant: 0x444746,
            error: 0xF2B8B5,
            error_container: 0x8C1D18,
            on_error_container: 0xF9DEDC,
            success: 0x6DD58C,
        }
    }

    /// The theme with nothing left to a low-contrast tint.
    pub open spec fn contrasted(self) -> Theme {
        Theme { outline: self.on_surface, on_surface_variant: self.on_surface, ..self }
    }

    pub open spec fn suited(appearance: WindowAppearance) -> Theme {
        if appearance is Dark || appearance is VibrantDark {
            Theme::dim()
        } else {
            Theme::bright()
        }
    }

    pub fn light() -> (theme: Theme)
        ensures
            theme == Theme::bright(),
    {
        Theme {
            dark: false,
            primary: 0x0B57D0,
            on_primary: 0xFFFFFF,
            primary_container: 0xD3E3FD,
            on_primary_container: 0x041E49,
            surface: 0xFFFFFF,
            surface_container: 0xF0F4F9,
            window_background: 0xF8FAFD,
            on_surface: 0x1F1F1F,
            on_surface_variant: 0x444746,
            outline: 0x747775,
            outline_variant: 0xC4C7C5,
            error: 0xB3261E,
            error_container: 0xF9DEDC,
            on_error_container: 0x410E0B,
            success: 0x146C2E,
        }
    }

    pub fn dark() -> (theme: Theme)
        ensures
            theme == Theme::dim(),
    {
        Theme {
            dark: true,
            primary: 0xA8C7FA,
            on_primary: 0x062E6F,
            primary_container: 0x0842A0,
            on_primary_container: 0xD3E3FD,
            surface: 0x1E1F20,
            surface_container: 0x28292A,
            window_background: 0x131314,
            on_surface: 0xE3E3E3,
            on_surface_variant: 0xC4C7C5,
            outline: 0x8E918F,
            outline_variant: 0x444746,
            error: 0xF2B8B5,
            error_container: 0x8C1D18,
            on_error_container: 0xF9DEDC,
            success: 0x6DD58C,
        }
    }

    pub fn for_appearance(appearance: WindowAppearance) -> (theme: Self)
        ensures
            theme == Theme::suited(appearance),
    {
        match appearance {
            WindowAppearance::Dark | WindowAppearance::VibrantDark => Self::dark(),
            _ => Self::light(),
        }
    }

    /// The theme for a window, with the system's high-contrast setting honoured.
    pub fn current(appearance: WindowAppearance, high_contrast: bool) -> (theme: Self)
        ensures
            theme == (if high_contrast {
                Theme::suited(appearance).contrasted()
            } else {
                Theme::suited(appearance)
            }),
    {
        let theme = Self::for_appearance(appearance);
        if high_contrast {
            theme.with_increased_contrast()
        } else {
            theme
        }
    }

    pub fn with_increased_contrast(self) -> (theme: Self)
        ensures
            theme == self.contrasted(),
    {
        Theme { outline: self.on_surface, on_surface_variant: self.on_surface, ..self }
    }
}

pub const UI_FALLBACK: &'static str = "Segoe UI";

pub const MONO_FALLBACK: &'static str = "Consolas";

/// The first name of a list that is available, else the fallback.
pub open spec fn resolved(
    candidates: Seq<Seq<char>>,
    available: Seq<Seq<char>>,
    fallback: Seq<char>,
) -> Seq<char>
    decreases candidates.len(),
{
    if candidates.len() == 0 {
        fallback
    } else if available.contains(candidates[0]) {
        candidates[0]
    } else {
        resolved(candidates.skip(1), available, fallback)
    }
}

/// The family for text. The family recorded inside a font file is not something
/// to assume: if it is not there, a system face is.
pub fn ui_font(available: &Vec<String>) -> (family: &'static str)
    ensures
        family@ == resolved(seq!["Google Sans Flex"@], texts(available@), UI_FALLBACK@),
{
    assert(resolved(seq!["Google Sans Flex"@].skip(1), texts(available@), UI_FALLBACK@)
        == UI_FALLBACK@);
    if holds_text(available, "Google Sans Flex") {
        "Google Sans Flex"
    } else {
        UI_FALLBACK
    }
}

/// The family for code.
pub fn mono_font(available: &Vec<String>) -> (family: &'static str)
    ensures
        family@ == resolved(
            seq!["Google Sans Code Monospace"@, "Google Sans Code"@],
            texts(available@),
            MONO_FALLBACK@,
        ),
{
    proof {
        let all = seq!["Google Sans Code Monospace"@, "Google Sans Code"@];
        let list = texts(available@);
        assert(all.skip(1) =~= seq!["Google Sans Code"@]);
        assert(all.skip(1).skip(1).len() == 0);
        assert(resolved(all.skip(1).skip(1), list, MONO_FALLBACK@) == MONO_FALLBACK@);
        assert(resolved(all.skip(1), list, MONO_FALLBACK@) == (if list.contains(
            "Google Sans Code"@,
        ) {
            "Google Sans Code"@
        } else {
            MONO_FALLBACK@
        }));
    }
    if holds_text(available, "Google Sans Code Monospace") {
        "Google Sans Code Monospace"
    } else if holds_text(available, "Google Sans Code") {
        "Google Sans Code"
    } else {
        MONO_FALLBACK
    }
}

/// The two themes differ in their surfaces and their text, and no background is
/// pure black or pure white.
pub proof fn the_themes_are_different()
    ensures
        Theme::bright().surface != Theme::dim().surface,
        Theme::bright().on_surface != Theme::dim().on_surface,
        Theme::dim().window_background != 0x000000,
        Theme::bright().window_background != 0xFFFFFF,
{
}

/// Asking for contrast twice is asking once, and it changes no other colour.
pub proof fn contrast_is_settled(theme: Theme)
    ensures
        theme.contrasted().contrasted() == theme.contrasted(),
        theme.contrasted().on_surface == theme.on_surface,
        theme.contrasted().on_surface_variant == theme.on_surface,
        theme.contrasted().outline == theme.on_surface,
{
}

} // verus!
