//! Unsigned decimal text, as the wire protocol writes coordinates.

use crate::ascii::{DIGIT_0, DIGIT_9};
use lexical::format::STANDARD;
use vstd::prelude::*;

verus! {

/// The ASCII byte of the decimal digit `d`.
pub open spec fn digit_byte(d: nat) -> u8
    recommends
        d < 10,
{
    (DIGIT_0 + d) as u8
}

/// The decimal text of `n`: most significant digit first, no sign, and no
/// leading zero except for the number zero itself.
pub open spec fn decimal_digits(n: nat) -> Seq<u8>
    decreases n,
{
    if n < 10 {
        seq![digit_byte(n)]
    } else {
        decimal_digits(n / 10).push(digit_byte(n % 10))
    }
}

/// The number that a run of decimal digits denotes.
pub open spec fn decimal_value(text: Seq<u8>) -> nat
    decreases text.len(),
{
    if text.len() == 0 {
        0
    } else {
        decimal_value(text.drop_last()) * 10 + (text.last() - DIGIT_0) as nat
    }
}

/// Whether `text` is the canonical decimal text of some number: at least one
/// digit, digits only, and no leading zero unless the text is `0`.
pub open spec fn is_decimal_text(text: Seq<u8>) -> bool {
    &&& text.len() >= 1
    &&& forall|i: int| 0 <= i < text.len() ==> DIGIT_0 <= #[trigger] text[i] <= DIGIT_9
    &&& (text.len() > 1 ==> text[0] != DIGIT_0)
}

/// Zero is written as the single digit `0`.
pub proof fn lemma_decimal_zero()
    ensures
        decimal_digits(0) == seq![DIGIT_0],
{
}

/// The decimal text of every number is canonical: it is never empty, holds
/// only digits, and starts with `0` only when the number is zero.
pub proof fn lemma_decimal_digits_canonical(n: nat)
    ensures
        is_decimal_text(decimal_digits(n)),
        n > 0 ==> decimal_digits(n)[0] != DIGIT_0,
    decreases n,
{
    if n >= 10 {
        lemma_decimal_digits_canonical(n / 10);
    }
}

/// Reading back the decimal text of a number yields that number.
pub proof fn lemma_decimal_round_trip(n: nat)
    ensures
        decimal_value(decimal_digits(n)) == n,
    decreases n,
{
    if n < 10 {
        assert(decimal_value(decimal_digits(n).drop_last()) == 0);
    } else {
        lemma_decimal_round_trip(n / 10);
        assert(decimal_digits(n).drop_last() =~= decimal_digits(n / 10));
    }
}

/// Writing the value of a canonical decimal text gives the text back, so the
/// texts and the numbers correspond one to one.
pub proof fn lemma_decimal_text_round_trip(text: Seq<u8>)
    requires
        is_decimal_text(text),
    ensures
        decimal_digits(decimal_value(text)) == text,
    decreases text.len(),
{
    let head = text.drop_last();
    let d = (text.last() - DIGIT_0) as nat;
    if text.len() == 1 {
        assert(head =~= Seq::<u8>::empty());
        assert(decimal_value(head) == 0);
        assert(decimal_digits(d) =~= text);
    } else {
        assert(head[0] == text[0]);
        lemma_decimal_text_round_trip(head);
        lemma_decimal_value_positive(head);
        let v = decimal_value(head);
        assert((v * 10 + d) / 10 == v);
        assert((v * 10 + d) % 10 == d);
        assert(decimal_digits(v * 10 + d) == decimal_digits(v).push(digit_byte(d)));
        assert(head.push(text.last()) =~= text);
    }
}

/// A canonical text that does not start with `0` denotes a positive number.
proof fn lemma_decimal_value_positive(text: Seq<u8>)
    requires
        is_decimal_text(text),
        text[0] != DIGIT_0,
    ensures
        decimal_value(text) > 0,
    decreases text.len(),
{
    if text.len() > 1 {
        lemma_decimal_value_positive(text.drop_last());
    }
}

/// Different numbers have different decimal texts.
pub proof fn lemma_decimal_digits_injective(a: nat, b: nat)
    requires
        decimal_digits(a) == decimal_digits(b),
    ensures
        a == b,
{
    lemma_decimal_round_trip(a);
    lemma_decimal_round_trip(b);
}

/// Writes `num` as decimal text.
///
/// Trusted: the body calls `lexical::to_string_with_options` with the
/// standard (radix ten) number format and the default integer options. The
/// contract claims that for an unsigned integer this yields its decimal
/// digits, most significant first, with no sign and no leading zero.
#[verifier::external_body]
pub(crate) fn encode_dec(num: usize) -> (text: Vec<u8>)
    ensures
        text@ == decimal_digits(num as nat),
{
    lexical::to_string_with_options::<usize, STANDARD>(
        num,
        &lexical::WriteIntegerOptions::new(),
    ).into_bytes()
}

} // verus!
