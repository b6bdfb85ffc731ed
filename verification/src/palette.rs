//! Colour palettes of the launcher and of the settings and manager windows,
//! per theme preset. A colour is `0xAARRGGBB`.

use vstd::prelude::*;
use crate::config::ThemePreset;

verus! {

/// Colours of the launcher (island and result panel).
#[derive(Debug, Clone, Copy, PartialEq, Eq, Structural)]
pub struct Theme {
    /// Outline.
    pub border: u32,
    /// Main text.
    pub text: u32,
    /// Secondary text.
    pub text_dim: u32,
    /// Hovered or selected row.
    pub hover_bg: u32,
    /// Accent.
    pub accent: u32,
    /// Text on the accent colour.
    pub accent_text: u32,
    /// Panel shadow.
    pub shadow: u32,
    /// Island fill (its alpha is the material).
    pub fill: u32,
    /// Draw the glass grain (frosted presets).
    pub glass: bool,
}

pub open spec fn spec_theme(preset: ThemePreset) -> Theme {
    match preset {
        ThemePreset::FrostedGlass => Theme {
            border: 0x3C16150F,
            text: 0xFF16150F,
            text_dim: 0xFF555044,
            hover_bg: 0xFFEFECE4,
            accent: 0xFFD9481B,
            accent_text: 0xFFFFFFFF,
            shadow: 0x24000000,
            fill: 0xF0FCFBF8,
            glass: true,
        },
        ThemePreset::Mica => Theme {
            border: 0x3016150F,
            text: 0xFF16150F,
            text_dim: 0xFF555044,
            hover_bg: 0xFFE9E5DC,
            accent: 0xFF1F6B58,
            accent_text: 0xFFFFFFFF,
            shadow: 0x18000000,
            fill: 0xF6F3F0EA,
            glass: false,
        },
        ThemePreset::Opaque => Theme {
            border: 0x5516150F,
            text: 0xFF16150F,
            text_dim: 0xFF4B463A,
            hover_bg: 0xFFEFECE4,
            accent: 0xFFD9481B,
            accent_text: 0xFFFFFFFF,
            shadow: 0x14000000,
            fill: 0xFFF7F4EE,
            glass: false,
        },
        ThemePreset::Dark => Theme {
            border: 0x38FFFFFF,
            text: 0xFFF5F5F7,
            text_dim: 0xFFAEAEB2,
            hover_bg: 0xFF3A3A3C,
            accent: 0xFF0A84FF,
            accent_text: 0xFFFFFFFF,
            shadow: 0x48000000,
            fill: 0xEE1C1C1E,
            glass: true,
        },
    }
}

impl Theme {
    /// The launcher palette of a preset: three light ones with dark text and
    /// a dark one with light text.
    pub fn resolve(preset: ThemePreset) -> (r: Theme)
        ensures
            r == spec_theme(preset),
    {
        match preset {
            ThemePreset::FrostedGlass => Theme {
                border: 0x3C16150F,
                text: 0xFF16150F,
                text_dim: 0xFF555044,
                hover_bg: 0xFFEFECE4,
                accent: 0xFFD9481B,
                accent_text: 0xFFFFFFFF,
                shadow: 0x24000000,
                fill: 0xF0FCFBF8,
                glass: true,
            },
            ThemePreset::Mica => Theme {
                border: 0x3016150F,
                text: 0xFF16150F,
                text_dim: 0xFF555044,
                hover_bg: 0xFFE9E5DC,
                accent: 0xFF1F6B58,
                accent_text: 0xFFFFFFFF,
                shadow: 0x18000000,
                fill: 0xF6F3F0EA,
                glass: false,
            },
            ThemePreset::Opaque => Theme {
                border: 0x5516150F,
                text: 0xFF16150F,
                text_dim: 0xFF4B463A,
                hover_bg: 0xFFEFECE4,
                accent: 0xFFD9481B,
                accent_text: 0xFFFFFFFF,
                shadow: 0x14000000,
                fill: 0xFFF7F4EE,
                glass: false,
            },
            ThemePreset::Dark => Theme {
                border: 0x38FFFFFF,
                text: 0xFFF5F5F7,
                text_dim: 0xFFAEAEB2,
                hover_bg: 0xFF3A3A3C,
                accent: 0xFF0A84FF,
                accent_text: 0xFFFFFFFF,
                shadow: 0x48000000,
                fill: 0xEE1C1C1E,
                glass: true,
            },
        }
    }
}

/// `color` with its alpha replaced by `alpha`.
pub open spec fn spec_with_alpha(color: u32, alpha: u8) -> u32 {
    (alpha * 0x1000000 + color % 0x1000000) as u32
}

fn with_alpha(color: u32, alpha: u8) -> (r: u32)
    ensures
        r == spec_with_alpha(color, alpha),
{
    (alpha as u32) * 0x1000000 + color % 0x1000000
}

/// Colours of the settings and application manager windows.
#[derive(Debug, Clone, Copy, PartialEq, Eq, Structural)]
pub struct SettingsTheme {
    pub win_bg: u32,
    pub sidebar_bg: u32,
    pub group_bg: u32,
    pub text: u32,
    pub text_dim: u32,
    pub disabled: u32,
    pub accent: u32,
    pub danger: u32,
    pub toggle_on: u32,
    pub toggle_off: u32,
    pub control_bg: u32,
    pub control_border: u32,
    pub shadow: u32,
    pub moss: u32,
}

pub open spec fn spec_settings_light() -> SettingsTheme {
    SettingsTheme {
        win_bg: 0xFFF4F1EA,
        sidebar_bg: 0xFFECE6DA,
        group_bg: 0xFFFBF9F5,
        text: 0xFF16150F,
        text_dim: 0xFF4B463A,
        disabled: 0xFF8C8577,
        accent: 0xFFD9481B,
        danger: 0xFFC23B22,
        toggle_on: 0xFF1F6B58,
        toggle_off: 0xFFD6D0C3,
        control_bg: 0xFFFFFFFF,
        control_border: 0x4016150F,
        shadow: 0x1816150F,
        moss: 0xFF1F6B58,
    }
}

pub open spec fn spec_settings_dark() -> SettingsTheme {
    SettingsTheme {
        win_bg: 0xFF1C1C1E,
        sidebar_bg: 0xFF242426,
        group_bg: 0xFF2C2C2E,
        text: 0xFFF5F5F7,
        text_dim: 0xFFAEAEB2,
        disabled: 0xFF636366,
        accent: 0xFF0A84FF,
        danger: 0xFFE6372D,
        toggle_on: 0xFF30D158,
        toggle_off: 0xFF636366,
        control_bg: 0xFF3A3A3C,
        control_border: 0x28FFFFFF,
        shadow: 0x48000000,
        moss: 0xFF30D158,
    }
}

/// The settings palette of a preset: the dark base for the dark preset, the
/// warm-paper light base otherwise, with a window background per preset
/// (frosted ones slightly translucent, mica warm grey, opaque solid paper)
/// and a moss accent for mica.
pub open spec fn spec_settings_theme(preset: ThemePreset) -> SettingsTheme {
    if preset == ThemePreset::Dark {
        SettingsTheme { win_bg: spec_with_alpha(spec_settings_dark().win_bg, 0xF2), ..spec_settings_dark() }
    } else {
        let l = spec_settings_light();
        let bg = match preset {
            ThemePreset::FrostedGlass => spec_with_alpha(l.win_bg, 0xF2),
            ThemePreset::Mica => 0xFFF0ECE3,
            _ => 0xFFF4F1EA,
        };
        let accent = if preset == ThemePreset::Mica {
            0xFF1F6B58
        } else {
            l.accent
        };
        SettingsTheme { win_bg: bg, accent, ..l }
    }
}

impl SettingsTheme {
    /// The warm-paper light base.
    pub fn light() -> (r: SettingsTheme)
        ensures
            r == spec_settings_light(),
    {
        SettingsTheme {
            win_bg: 0xFFF4F1EA,
            sidebar_bg: 0xFFECE6DA,
            group_bg: 0xFFFBF9F5,
            text: 0xFF16150F,
            text_dim: 0xFF4B463A,
            disabled: 0xFF8C8577,
            accent: 0xFFD9481B,
            danger: 0xFFC23B22,
            toggle_on: 0xFF1F6B58,
            toggle_off: 0xFFD6D0C3,
            control_bg: 0xFFFFFFFF,
            control_border: 0x4016150F,
            shadow: 0x1816150F,
            moss: 0xFF1F6B58,
        }
    }

    /// The dark base.
    pub fn dark() -> (r: SettingsTheme)
        ensures
            r == spec_settings_dark(),
    {
        SettingsTheme {
            win_bg: 0xFF1C1C1E,
            sidebar_bg: 0xFF242426,
            group_bg: 0xFF2C2C2E,
            text: 0xFFF5F5F7,
            text_dim: 0xFFAEAEB2,
            disabled: 0xFF636366,
            accent: 0xFF0A84FF,
            danger: 0xFFE6372D,
            toggle_on: 0xFF30D158,
            toggle_off: 0xFF636366,
            control_bg: 0xFF3A3A3C,
            control_border: 0x28FFFFFF,
            shadow: 0x48000000,
            moss: 0xFF30D158,
        }
    }

    /// The settings palette of a preset.
    pub fn for_preset(preset: ThemePreset) -> (r: SettingsTheme)
        ensures
            r == spec_settings_theme(preset),
    {
        if preset == ThemePreset::Dark {
            let mut t = SettingsTheme::dark();
            t.win_bg = with_alpha(t.win_bg, 0xF2);
            return t;
        }
        let mut t = SettingsTheme::light();
        t.win_bg = match preset {
            ThemePreset::FrostedGlass => with_alpha(t.win_bg, 0xF2),
            ThemePreset::Mica => 0xFFF0ECE3,
            _ => 0xFFF4F1EA,
        };
        if preset == ThemePreset::Mica {
            t.accent = 0xFF1F6B58;
        }
        t
    }
}

} // verus!
