//! The filter's own color policy.
use vstd::prelude::*;

use crate::text::same_text;

verus! {

/// Whether the filter keeps the colors in what it writes.
#[derive(Clone, Copy, Debug, PartialEq, Eq, Structural)]
pub enum ColorSetting {
    /// Keep the colors when writing to a terminal, strip them otherwise.
    Auto,
    /// Always keep the colors.
    Always,
    /// Always strip the colors.
    Never,
}

pub open spec fn always_word() -> Seq<char> {
    seq!['a', 'l', 'w', 'a', 'y', 's']
}

pub open spec fn auto_word() -> Seq<char> {
    seq!['a', 'u', 't', 'o']
}

pub open spec fn never_word() -> Seq<char> {
    seq!['n', 'e', 'v', 'e', 'r']
}

/// The setting that a value of `--color` (or of the environment override)
/// names, if any.
pub open spec fn color_setting_of(v: Seq<char>) -> Option<ColorSetting> {
    if v == always_word() {
        Some(ColorSetting::Always)
    } else if v == auto_word() {
        Some(ColorSetting::Auto)
    } else if v == never_word() {
        Some(ColorSetting::Never)
    } else {
        None
    }
}

/// Reads a color value: `always`, `auto` or `never`.
pub fn parse_color_value(v: &str) -> (r: Option<ColorSetting>)
    ensures
        r == color_setting_of(v@),
{
    proof {
        reveal_strlit("always");
        reveal_strlit("auto");
        reveal_strlit("never");
        assert("always"@ =~= always_word());
        assert("auto"@ =~= auto_word());
        assert("never"@ =~= never_word());
    }
    if same_text(v, "always") {
        Some(ColorSetting::Always)
    } else if same_text(v, "auto") {
        Some(ColorSetting::Auto)
    } else if same_text(v, "never") {
        Some(ColorSetting::Never)
    } else {
        None
    }
}

/// Whether the colors are to be taken out of the output, given whether the
/// filter writes to an interactive terminal.
pub open spec fn strips_color(setting: ColorSetting, to_terminal: bool) -> bool {
    match setting {
        ColorSetting::Always => false,
        ColorSetting::Never => true,
        ColorSetting::Auto => !to_terminal,
    }
}

/// Decides, once for the whole run, whether the output loses its colors.
pub fn strip_color_for(setting: ColorSetting, to_terminal: bool) -> (r: bool)
    ensures
        r == strips_color(setting, to_terminal),
{
    match setting {
        ColorSetting::Always => false,
        ColorSetting::Never => true,
        ColorSetting::Auto => !to_terminal,
    }
}

} // verus!
