use crate::device::wifi::access_point::{band_label, band_of_frequency};
use vstd::prelude::*;

verus! {

/// A network as the list model holds it, with its raw frequency.
pub struct NetworkDisplayInfo {
    pub ssid: String,
    pub strength: u8,
    pub frequency: u32,
    pub is_secure: bool,
    /// Kept for connecting later.
    pub path: String,
}

/// The colour in which a signal strength is drawn.
#[derive(Debug, Clone, Copy, PartialEq, Eq, Structural)]
pub enum SignalColor {
    Red,
    Yellow,
    Green,
}

/// The bars drawn for a signal strength in percent.
pub open spec fn signal_icon_view(strength: u8) -> Seq<char> {
    if strength <= 20 {
        "  "@
    } else if strength <= 40 {
        "▂ "@
    } else if strength <= 60 {
        "▂▄"@
    } else if strength <= 80 {
        "▂▄▆"@
    } else {
        "▂▄▆█"@
    }
}

/// The number of bars in an icon: its characters other than spaces.
pub open spec fn bar_count(icon: Seq<char>) -> nat
    decreases icon.len(),
{
    if icon.len() == 0 {
        0
    } else {
        bar_count(icon.drop_last()) + if icon.last() == ' ' {
            0nat
        } else {
            1nat
        }
    }
}

/// The number of bars shown for a signal strength in percent.
pub open spec fn signal_bars(strength: u8) -> nat {
    if strength <= 20 {
        0
    } else if strength <= 40 {
        1
    } else if strength <= 60 {
        2
    } else if strength <= 80 {
        3
    } else {
        4
    }
}

/// The icon of a signal strength has as many bars as `signal_bars` says.
pub proof fn lemma_signal_icon_bars(strength: u8)
    ensures
        bar_count(signal_icon_view(strength)) == signal_bars(strength),
{
    reveal_strlit("  ");
    reveal_strlit("▂ ");
    reveal_strlit("▂▄");
    reveal_strlit("▂▄▆");
    reveal_strlit("▂▄▆█");
    reveal_with_fuel(bar_count, 5);
}

/// A stronger signal never shows fewer bars; no bar is shown up to 20 % and
/// all four only above 80 %.
pub proof fn lemma_signal_icon_monotonic(a: u8, b: u8)
    requires
        a <= b,
    ensures
        bar_count(signal_icon_view(a)) <= bar_count(signal_icon_view(b)),
        bar_count(signal_icon_view(a)) == 0 <==> a <= 20,
        bar_count(signal_icon_view(a)) == 4 <==> a > 80,
{
    lemma_signal_icon_bars(a);
    lemma_signal_icon_bars(b);
}

/// The colour for a signal strength in percent: red up to 30, yellow up to
/// 70, green above.
pub open spec fn signal_color_view(strength: u8) -> SignalColor {
    if strength <= 30 {
        SignalColor::Red
    } else if strength <= 70 {
        SignalColor::Yellow
    } else {
        SignalColor::Green
    }
}

/// The bars drawn for a signal strength in percent.
pub fn signal_icon_for(strength: u8) -> (r: &'static str)
    ensures
        r@ == signal_icon_view(strength),
{
    if strength <= 20 {
        "  "
    } else if strength <= 40 {
        "▂ "
    } else if strength <= 60 {
        "▂▄"
    } else if strength <= 80 {
        "▂▄▆"
    } else {
        "▂▄▆█"
    }
}

/// The colour for a signal strength in percent.
pub fn signal_color_for(strength: u8) -> (r: SignalColor)
    ensures
        r == signal_color_view(strength),
{
    if strength <= 30 {
        SignalColor::Red
    } else if strength <= 70 {
        SignalColor::Yellow
    } else {
        SignalColor::Green
    }
}

impl NetworkDisplayInfo {
    /// Returns a visual signal strength icon.
    pub fn signal_icon(&self) -> (r: &'static str)
        ensures
            r@ == signal_icon_view(self.strength),
    {
        signal_icon_for(self.strength)
    }

    /// Returns a colour based on signal strength.
    pub fn signal_color(&self) -> (r: SignalColor)
        ensures
            r == signal_color_view(self.strength),
    {
        signal_color_for(self.strength)
    }

    /// Identifies the band (2.4GHz vs 5GHz).
    pub fn band(&self) -> (r: &'static str)
        ensures
            r@ == band_of_frequency(self.frequency),
    {
        band_label(self.frequency)
    }
}

} // verus!
