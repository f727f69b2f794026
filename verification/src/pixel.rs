//! Colors and pixels. A pixel carries the hexadecimal text of its color,
//! computed once when the pixel is built, so that sending it costs no
//! formatting.

use crate::ascii::{DIGIT_0, DIGIT_9, UPPER_A, UPPER_F};
use vstd::prelude::*;

verus! {

/// A color: three channels, or four where the source carries alpha.
#[derive(Clone, Copy, Debug, PartialEq, Eq, Structural)]
pub enum Color {
    Rgb(u8, u8, u8),
    Rgba(u8, u8, u8, u8),
}

/// The ASCII byte of the hexadecimal digit `v`, in upper case.
pub open spec fn hex_digit(v: nat) -> u8
    recommends
        v < 16,
{
    if v < 10 {
        (DIGIT_0 + v) as u8
    } else {
        (UPPER_A + v - 10) as u8
    }
}

/// The two hexadecimal digits of one channel, high digit first.
pub open spec fn hex_byte(b: u8) -> Seq<u8> {
    seq![hex_digit((b / 16) as nat), hex_digit((b % 16) as nat)]
}

/// Whether the color carries an alpha channel.
pub open spec fn has_alpha(color: Color) -> bool {
    color is Rgba
}

/// The hexadecimal text of a color: two digits per channel, in the order
/// red, green, blue and, where present, alpha.
pub open spec fn hex_text(color: Color) -> Seq<u8> {
    match color {
        Color::Rgb(r, g, b) => hex_byte(r) + hex_byte(g) + hex_byte(b),
        Color::Rgba(r, g, b, a) => hex_byte(r) + hex_byte(g) + hex_byte(b) + hex_byte(a),
    }
}

/// The width of the hexadecimal text: six digits, or eight with alpha.
pub open spec fn hex_width(color: Color) -> nat {
    if has_alpha(color) {
        8
    } else {
        6
    }
}

/// The hexadecimal text of a color has its fixed width and holds only
/// upper-case hexadecimal digits.
pub proof fn lemma_hex_text_shape(color: Color)
    ensures
        hex_text(color).len() == hex_width(color),
        forall|i: int|
            0 <= i < hex_text(color).len() ==> {
                let d = #[trigger] hex_text(color)[i];
                DIGIT_0 <= d <= DIGIT_9 || UPPER_A <= d <= UPPER_F
            },
{
}

/// One pixel of a frame: its color and the cached hexadecimal text of it.
#[derive(Debug)]
pub struct Pixel {
    color: Color,
    hex_repr: Vec<u8>,
}

impl View for Pixel {
    type V = Color;

    closed spec fn view(&self) -> Color {
        self.color
    }
}

fn hex_digit_of(v: u8) -> (d: u8)
    requires
        v < 16,
    ensures
        d == hex_digit(v as nat),
{
    if v < 10 {
        DIGIT_0 + v
    } else {
        UPPER_A + (v - 10)
    }
}

fn push_hex_byte(text: &mut Vec<u8>, b: u8)
    ensures
        final(text)@ == old(text)@ + hex_byte(b),
{
    text.push(hex_digit_of(b / 16));
    text.push(hex_digit_of(b % 16));
}

impl Pixel {
    #[verifier::type_invariant]
    spec fn text_matches_color(self) -> bool {
        self.hex_repr@ == hex_text(self.color)
    }

    /// Builds the pixel of a color, formatting its hexadecimal text.
    pub fn new(color: Color) -> (pixel: Pixel)
        ensures
            pixel@ == color,
    {
        let mut text: Vec<u8> = Vec::new();
        match color {
            Color::Rgb(r, g, b) => {
                push_hex_byte(&mut text, r);
                push_hex_byte(&mut text, g);
                push_hex_byte(&mut text, b);
            },
            Color::Rgba(r, g, b, a) => {
                push_hex_byte(&mut text, r);
                push_hex_byte(&mut text, g);
                push_hex_byte(&mut text, b);
                push_hex_byte(&mut text, a);
            },
        }
        Pixel { color, hex_repr: text }
    }

    /// The color of the pixel.
    pub fn color(&self) -> (color: Color)
        ensures
            color == self@,
    {
        self.color
    }

    /// The cached hexadecimal text of the pixel's color.
    pub fn hex_repr(&self) -> (text: &Vec<u8>)
        ensures
            text@ == hex_text(self@),
    {
        proof {
            use_type_invariant(self);
        }
        &self.hex_repr
    }
}

} // verus!
