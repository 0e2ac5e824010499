//! A single cell of the rain: its glyph, how long it still lives, and its colour.

use vstd::prelude::*;

verus! {

/// The glyph of an empty cell.
pub const BLANK: char = ' ';

/// Shortest time, in ticks, before a fresh rune starts to fade.
pub const RUNE_LIFETIME_MIN: u8 = 4;

/// One more than the longest time, in ticks, before a fresh rune starts to fade.
pub const RUNE_LIFETIME_MAX: u8 = 20;

/// Number of ticks a rune takes to fade to black.
pub const RUNE_FADE_DURATION: u8 = 7;

/// Lifetimes at or above this value are outside the band that a tick counts
/// down. No fresh rune reaches it.
pub const RUNE_LIFETIME_LIMIT: u8 = RUNE_LIFETIME_MAX + RUNE_FADE_DURATION;

/// Colour of the trail of a stream.
pub const RUNE_COLOR_BASE: (u8, u8, u8) = (0, 255, 255);

/// Colour of the head of a stream.
pub const RUNE_GENERATOR_COLOR: (u8, u8, u8) = (255, 0, 0);

/// One animated cell.
#[derive(Clone, Copy, Debug, PartialEq, Eq)]
pub struct Rune {
    pub character: char,
    pub lifetime: u8,
    pub color: (u8, u8, u8),
}

/// What one tick of ageing makes of a rune.
pub open spec fn aged(rune: Rune) -> Rune {
    if rune.lifetime >= RUNE_LIFETIME_LIMIT {
        rune
    } else if rune.lifetime <= 1 {
        Rune { character: BLANK, lifetime: 0, color: rune.color }
    } else {
        Rune { lifetime: (rune.lifetime - 1) as u8, ..rune }
    }
}

/// `rune` in another colour.
pub open spec fn recolored(rune: Rune, color: (u8, u8, u8)) -> Rune {
    Rune { color, ..rune }
}

/// What is left of a colour channel at `lifetime` ticks before the end of the
/// fade: each tick takes a seventh of the channel, rounded down.
pub open spec fn faded_channel(channel: u8, lifetime: u8) -> int {
    channel - (channel / RUNE_FADE_DURATION) * (RUNE_FADE_DURATION - lifetime)
}

/// The colour in which a rune is shown: its own until the fade begins, black
/// at the end, and in between each channel faded by the ticks gone.
pub open spec fn display_color(rune: Rune) -> (u8, u8, u8) {
    if rune.lifetime >= RUNE_FADE_DURATION {
        rune.color
    } else if rune.lifetime == 0 {
        (0u8, 0u8, 0u8)
    } else {
        (
            faded_channel(rune.color.0, rune.lifetime) as u8,
            faded_channel(rune.color.1, rune.lifetime) as u8,
            faded_channel(rune.color.2, rune.lifetime) as u8,
        )
    }
}

/// A faded channel never leaves the range of a channel, and never exceeds
/// the channel it came from.
pub proof fn lemma_faded_channel_bounds(channel: u8, lifetime: u8)
    requires
        lifetime <= RUNE_FADE_DURATION,
    ensures
        0 <= channel % RUNE_FADE_DURATION <= faded_channel(channel, lifetime) <= channel <= u8::MAX,
{
    let step = channel as int / RUNE_FADE_DURATION as int;
    let gone = RUNE_FADE_DURATION as int - lifetime as int;
    assert(0 <= step * gone <= step * 7) by (nonlinear_arith)
        requires
            0 <= step,
            0 <= gone <= 7,
    ;
}

/// The later in its fade a rune is, the darker each channel: a channel with
/// fewer ticks left is never brighter, and is darker wherever a seventh of
/// the channel is at least 1.
pub proof fn lemma_fade_darkens(channel: u8, sooner: u8, later: u8)
    requires
        later < sooner <= RUNE_FADE_DURATION,
    ensures
        faded_channel(channel, later) <= faded_channel(channel, sooner),
        channel >= RUNE_FADE_DURATION ==> faded_channel(channel, later) < faded_channel(
            channel,
            sooner,
        ),
{
    let step = channel as int / RUNE_FADE_DURATION as int;
    let gone_sooner = RUNE_FADE_DURATION as int - sooner as int;
    let gone_later = RUNE_FADE_DURATION as int - later as int;
    assert(step * gone_sooner <= step * gone_later) by (nonlinear_arith)
        requires
            0 <= step,
            gone_sooner < gone_later,
    ;
    assert(step >= 1 ==> step * gone_sooner < step * gone_later) by (nonlinear_arith)
        requires
            0 <= step,
            gone_sooner < gone_later,
    ;
}

/// No channel of the colour in which a rune is shown exceeds the channel of
/// the rune's own colour, and during the fade each is exactly what
/// [`faded_channel`] leaves of it: nothing wraps around.
pub proof fn lemma_display_color_bounds(rune: Rune)
    ensures
        0 <= display_color(rune).0 <= rune.color.0 <= u8::MAX,
        0 <= display_color(rune).1 <= rune.color.1 <= u8::MAX,
        0 <= display_color(rune).2 <= rune.color.2 <= u8::MAX,
        0 < rune.lifetime < RUNE_FADE_DURATION ==> {
            &&& display_color(rune).0 == faded_channel(rune.color.0, rune.lifetime)
            &&& display_color(rune).1 == faded_channel(rune.color.1, rune.lifetime)
            &&& display_color(rune).2 == faded_channel(rune.color.2, rune.lifetime)
        },
{
    if rune.lifetime <= RUNE_FADE_DURATION {
        lemma_faded_channel_bounds(rune.color.0, rune.lifetime);
        lemma_faded_channel_bounds(rune.color.1, rune.lifetime);
        lemma_faded_channel_bounds(rune.color.2, rune.lifetime);
    }
}

/// Whether a newly created rune can have this lifetime: a draw from
/// [`RUNE_LIFETIME_MIN`] up to, not including, [`RUNE_LIFETIME_MAX`], and the
/// whole fade on top of it.
pub open spec fn fresh_lifetime(lifetime: u8) -> bool {
    RUNE_LIFETIME_MIN + RUNE_FADE_DURATION <= lifetime < RUNE_LIFETIME_MAX + RUNE_FADE_DURATION
}

/// One colour channel of a rune that has `lifetime` ticks of its fade left.
fn fade(channel: u8, lifetime: u8) -> (faded: u8)
    requires
        lifetime <= RUNE_FADE_DURATION,
    ensures
        faded == faded_channel(channel, lifetime),
{
    proof {
        lemma_faded_channel_bounds(channel, lifetime);
    }
    let step: u8 = channel / RUNE_FADE_DURATION;
    let gone: u8 = RUNE_FADE_DURATION - lifetime;
    assert(step * gone <= step * 7 <= channel) by (nonlinear_arith)
        requires
            step == channel / 7,
            0 <= gone <= 7,
    ;
    channel - step * gone
}

impl Rune {
    /// The rune of the given glyph and colour that lives `roll` ticks before it
    /// starts to fade.
    pub fn fresh(character: char, color: (u8, u8, u8), roll: u8) -> (rune: Rune)
        requires
            roll + RUNE_FADE_DURATION <= u8::MAX,
        ensures
            rune == (Rune { character, lifetime: (roll + RUNE_FADE_DURATION) as u8, color }),
            rune.lifetime >= RUNE_FADE_DURATION,
    {
        Rune { character, lifetime: roll + RUNE_FADE_DURATION, color }
    }

    /// The colour in which the rune is shown.
    pub fn display_color(&self) -> (color: (u8, u8, u8))
        ensures
            color == display_color(*self),
    {
        if self.lifetime >= RUNE_FADE_DURATION {
            self.color
        } else if self.lifetime == 0 {
            (0, 0, 0)
        } else {
            (
                fade(self.color.0, self.lifetime),
                fade(self.color.1, self.lifetime),
                fade(self.color.2, self.lifetime),
            )
        }
    }

    /// Ages the rune by one tick.
    pub fn age(&mut self)
        ensures
            *final(self) == aged(*old(self)),
    {
        if self.lifetime < RUNE_LIFETIME_LIMIT {
            if self.lifetime <= 1 {
                self.lifetime = 0;
                self.character = BLANK;
            } else {
                self.lifetime = self.lifetime - 1;
            }
        }
    }
}

} // verus!
