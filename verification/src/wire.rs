//! The wire text can be read back in one way only: the bytes of a send
//! determine its commands, one per line.

use crate::ascii::{LINE_FEED, SPACE, UPPER_P, UPPER_X};
use crate::decimal::{decimal_digits, lemma_decimal_digits_canonical, lemma_decimal_digits_injective};
use crate::pixel::{hex_byte, hex_text, lemma_hex_text_shape, Color};
use crate::protocol::{command_text, wire_text, PixelCommand};
use vstd::prelude::*;

verus! {

/// Whether the byte `b` occurs nowhere in `text`.
pub open spec fn free_of(text: Seq<u8>, b: u8) -> bool {
    forall|i: int| 0 <= i < text.len() ==> #[trigger] text[i] != b
}

/// Whether `text` is one line: it ends with a line feed and holds no other.
pub open spec fn is_line(text: Seq<u8>) -> bool {
    &&& text.len() >= 1
    &&& text.last() == LINE_FEED
    &&& free_of(text.drop_last(), LINE_FEED)
}

/// A text that starts with a field free of `sep`, followed by `sep`, splits
/// at that separator in one way only.
proof fn lemma_field_unique(a: Seq<u8>, rest_a: Seq<u8>, b: Seq<u8>, rest_b: Seq<u8>, sep: u8)
    requires
        free_of(a, sep),
        free_of(b, sep),
        a + seq![sep] + rest_a == b + seq![sep] + rest_b,
    ensures
        a == b,
        rest_a == rest_b,
{
    let whole_a = a + seq![sep] + rest_a;
    let whole_b = b + seq![sep] + rest_b;
    // The separator that follows the shorter field cannot stand inside the
    // longer one, so the two fields have one length.
    if a.len() < b.len() {
        assert(whole_a[a.len() as int] == sep);
    } else if b.len() < a.len() {
        assert(whole_b[b.len() as int] == sep);
    }
    assert forall|i: int| 0 <= i < a.len() implies a[i] == b[i] by {
        assert(whole_a[i] == a[i]);
    }
    assert(whole_a.len() == whole_b.len());
    assert forall|i: int| 0 <= i < rest_a.len() implies rest_a[i] == rest_b[i] by {
        assert(whole_a[a.len() + 1 + i] == rest_a[i]);
    }
}

/// Decimal text holds neither a space nor a line feed.
proof fn lemma_decimal_digits_plain(n: nat)
    ensures
        free_of(decimal_digits(n), SPACE),
        free_of(decimal_digits(n), LINE_FEED),
{
    lemma_decimal_digits_canonical(n);
}

/// Hexadecimal text holds neither a space nor a line feed.
proof fn lemma_hex_text_plain(color: Color)
    ensures
        free_of(hex_text(color), SPACE),
        free_of(hex_text(color), LINE_FEED),
{
    lemma_hex_text_shape(color);
}

/// The two digits of a channel determine the channel.
proof fn lemma_hex_byte_injective(a: u8, b: u8)
    requires
        hex_byte(a) == hex_byte(b),
    ensures
        a == b,
{
}

/// Different colors have different hexadecimal texts.
pub proof fn lemma_hex_text_injective(a: Color, b: Color)
    requires
        hex_text(a) == hex_text(b),
    ensures
        a == b,
{
    lemma_hex_text_shape(a);
    lemma_hex_text_shape(b);
    let ta = hex_text(a);
    match (a, b) {
        (Color::Rgb(r1, g1, b1), Color::Rgb(r2, g2, b2)) => {
            lemma_hex_byte_injective(r1, r2);
            lemma_hex_byte_injective(g1, g2);
            lemma_hex_byte_injective(b1, b2);
        },
        (Color::Rgba(r1, g1, b1, a1), Color::Rgba(r2, g2, b2, a2)) => {
            assert(hex_byte(r1) =~= ta.subrange(0, 2));
            assert(hex_byte(g1) =~= ta.subrange(2, 4));
            assert(hex_byte(b1) =~= ta.subrange(4, 6));
            assert(hex_byte(a1) =~= ta.subrange(6, 8));
            lemma_hex_byte_injective(r1, r2);
            lemma_hex_byte_injective(g1, g2);
            lemma_hex_byte_injective(b1, b2);
            lemma_hex_byte_injective(a1, a2);
        },
        // Texts of six and of eight digits are never equal.
        _ => {},
    }
}

/// The text of a command after its `PX ` prefix.
spec fn command_fields(cmd: PixelCommand) -> Seq<u8> {
    decimal_digits(cmd.x) + seq![SPACE] + (decimal_digits(cmd.y) + seq![SPACE] + (hex_text(
        cmd.color,
    ) + seq![LINE_FEED] + Seq::<u8>::empty()))
}

/// The text of a command is its prefix, then its fields.
proof fn lemma_command_fields(cmd: PixelCommand)
    ensures
        command_text(cmd) == seq![UPPER_P, UPPER_X, SPACE] + command_fields(cmd),
{
}

/// The text of a command is one line.
pub proof fn lemma_command_text_is_line(cmd: PixelCommand)
    ensures
        is_line(command_text(cmd)),
{
    lemma_decimal_digits_plain(cmd.x);
    lemma_decimal_digits_plain(cmd.y);
    lemma_hex_text_plain(cmd.color);
}

/// Different commands have different texts.
pub proof fn lemma_command_text_injective(a: PixelCommand, b: PixelCommand)
    requires
        command_text(a) == command_text(b),
    ensures
        a == b,
{
    lemma_command_fields(a);
    lemma_command_fields(b);
    let prefix = seq![UPPER_P, UPPER_X, SPACE];
    let fa = command_fields(a);
    let fb = command_fields(b);
    assert(fa =~= (prefix + fa).subrange(3, (prefix + fa).len() as int));
    assert(fb =~= (prefix + fb).subrange(3, (prefix + fb).len() as int));
    assert(fa == fb);
    lemma_decimal_digits_plain(a.x);
    lemma_decimal_digits_plain(b.x);
    lemma_decimal_digits_plain(a.y);
    lemma_decimal_digits_plain(b.y);
    lemma_hex_text_plain(a.color);
    lemma_hex_text_plain(b.color);
    let empty = Seq::<u8>::empty();
    let ha = hex_text(a.color) + seq![LINE_FEED] + empty;
    let hb = hex_text(b.color) + seq![LINE_FEED] + empty;
    let ya = decimal_digits(a.y) + seq![SPACE] + ha;
    let yb = decimal_digits(b.y) + seq![SPACE] + hb;
    lemma_field_unique(decimal_digits(a.x), ya, decimal_digits(b.x), yb, SPACE);
    lemma_field_unique(decimal_digits(a.y), ha, decimal_digits(b.y), hb, SPACE);
    lemma_field_unique(hex_text(a.color), empty, hex_text(b.color), empty, LINE_FEED);
    lemma_decimal_digits_injective(a.x, b.x);
    lemma_decimal_digits_injective(a.y, b.y);
    lemma_hex_text_injective(a.color, b.color);
}

/// Where two texts end with a line each, and what stands before the last
/// line is empty or ends with a line feed, equal texts have equal last lines
/// and equal parts before them.
proof fn lemma_last_line_unique(x: Seq<u8>, line_x: Seq<u8>, y: Seq<u8>, line_y: Seq<u8>)
    requires
        x + line_x == y + line_y,
        is_line(line_x),
        is_line(line_y),
        x.len() == 0 || x.last() == LINE_FEED,
        y.len() == 0 || y.last() == LINE_FEED,
    ensures
        x == y,
        line_x == line_y,
{
    let whole_x = x + line_x;
    let whole_y = y + line_y;
    assert(whole_x.len() == whole_y.len());
    // Before the shorter last line stands a line feed, which would lie
    // inside the longer one: the two last lines have one length.
    if line_x.len() < line_y.len() {
        let j = x.len() - 1 - y.len();
        assert(whole_x[x.len() - 1] == x.last());
        assert(line_y.drop_last()[j] == line_y[j]);
    } else if line_y.len() < line_x.len() {
        let j = y.len() - 1 - x.len();
        assert(whole_y[y.len() - 1] == y.last());
        assert(line_x.drop_last()[j] == line_x[j]);
    }
    assert forall|i: int| 0 <= i < x.len() implies x[i] == y[i] by {
        assert(whole_x[i] == x[i]);
    }
    assert forall|i: int| 0 <= i < line_x.len() implies line_x[i] == line_y[i] by {
        assert(whole_x[x.len() + i] == line_x[i]);
    }
}

/// The wire text of no command is empty; any other ends with a line feed.
proof fn lemma_wire_text_ends(cmds: Seq<PixelCommand>)
    ensures
        cmds.len() == 0 ==> wire_text(cmds).len() == 0,
        cmds.len() > 0 ==> wire_text(cmds).len() > 0 && wire_text(cmds).last() == LINE_FEED,
{
    if cmds.len() > 0 {
        lemma_command_text_is_line(cmds.last());
    }
}

/// The bytes of a send determine its commands: two sequences of commands
/// with the same wire text are the same sequence.
pub proof fn lemma_wire_text_injective(a: Seq<PixelCommand>, b: Seq<PixelCommand>)
    requires
        wire_text(a) == wire_text(b),
    ensures
        a == b,
    decreases a.len(),
{
    lemma_wire_text_ends(a);
    lemma_wire_text_ends(b);
    if a.len() > 0 {
        lemma_wire_text_ends(a.drop_last());
        lemma_wire_text_ends(b.drop_last());
        lemma_command_text_is_line(a.last());
        lemma_command_text_is_line(b.last());
        lemma_last_line_unique(
            wire_text(a.drop_last()),
            command_text(a.last()),
            wire_text(b.drop_last()),
            command_text(b.last()),
        );
        lemma_command_text_injective(a.last(), b.last());
        lemma_wire_text_injective(a.drop_last(), b.drop_last());
        assert(a =~= a.drop_last().push(a.last()));
    }
}

} // verus!
