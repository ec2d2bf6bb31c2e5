//! The handful of controls the windows share: which colours they have, and what
//! they say to those who cannot see them.

use vstd::prelude::*;

use crate::theme::Theme;

verus! {

#[derive(Debug, Clone, Copy, PartialEq, Eq, Structural)]
pub enum ButtonKind {
    /// The one action a pane is about.
    Primary,
    /// Everything else.
    Secondary,
    /// Deletes something the user cannot get back.
    Destructive,
}

/// The colours of a control.
#[derive(Debug, Clone, Copy, PartialEq, Eq, Structural)]
pub struct Palette {
    pub background: u32,
    pub foreground: u32,
    pub border: u32,
}

pub open spec fn button_palette(kind: ButtonKind, theme: Theme) -> Palette {
    match kind {
        ButtonKind::Primary => Palette {
            background: theme.primary,
            foreground: theme.on_primary,
            border: theme.primary,
        },
        ButtonKind::Secondary => Palette {
            background: theme.surface,
            foreground: theme.on_surface,
            border: theme.outline_variant,
        },
        ButtonKind::Destructive => Palette {
            background: theme.surface,
            foreground: theme.error,
            border: theme.error,
        },
    }
}

pub fn button_colors(kind: ButtonKind, theme: Theme) -> (palette: Palette)
    ensures
        palette == button_palette(kind, theme),
{
    match kind {
        ButtonKind::Primary => Palette {
            background: theme.primary,
            foreground: theme.on_primary,
            border: theme.primary,
        },
        ButtonKind::Secondary => Palette {
            background: theme.surface,
            foreground: theme.on_surface,
            border: theme.outline_variant,
        },
        ButtonKind::Destructive => Palette {
            background: theme.surface,
            foreground: theme.error,
            border: theme.error,
        },
    }
}

/// What a button is called. Disabled is said, not only shown: colour alone is not
/// a state for anyone who cannot see it.
pub fn button_label(label: &str, enabled: bool) -> (spoken: String)
    ensures
        spoken@ == (if enabled {
            label@
        } else {
            label@ + " (unavailable)"@
        }),
{
    let mut spoken = label.to_owned();
    if !enabled {
        spoken.append(" (unavailable)");
    }
    spoken
}

/// The track and the knob of a switch.
pub fn toggle_colors(on: bool, theme: Theme) -> (colors: (u32, u32))
    ensures
        colors == (if on {
            (theme.primary, theme.on_primary)
        } else {
            (theme.outline_variant, theme.surface)
        }),
{
    if on {
        (theme.primary, theme.on_primary)
    } else {
        (theme.outline_variant, theme.surface)
    }
}

/// Whether a message reads as neutral, good, or a problem.
#[derive(Debug, Clone, Copy, PartialEq, Eq, Structural)]
pub enum StatusTone {
    Neutral,
    Good,
    Bad,
}

impl StatusTone {
    pub fn color(self, theme: Theme) -> (color: u32)
        ensures
            color == (match self {
                StatusTone::Neutral => theme.on_surface_variant,
                StatusTone::Good => theme.success,
                StatusTone::Bad => theme.error,
            }),
    {
        match self {
            StatusTone::Neutral => theme.on_surface_variant,
            StatusTone::Good => theme.success,
            StatusTone::Bad => theme.error,
        }
    }
}

/// A one-line message.
#[derive(Debug, PartialEq, Eq)]
pub struct Said {
    pub words: String,
    pub tone: StatusTone,
}

pub struct SaidView {
    pub words: Seq<char>,
    pub tone: StatusTone,
}

impl View for Said {
    type V = SaidView;

    open spec fn view(&self) -> SaidView {
        SaidView { words: self.words@, tone: self.tone }
    }
}

impl Said {
    pub fn new(words: &str, tone: StatusTone) -> (said: Self)
        ensures
            said@ == (SaidView { words: words@, tone }),
    {
        Said { words: words.to_owned(), tone }
    }
}

pub open spec fn opt_said(said: Option<Said>) -> Option<SaidView> {
    match said {
        Some(said) => Some(said@),
        None => None,
    }
}

} // verus!
