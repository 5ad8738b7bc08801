//! Properties that hold across the parsing and reading functions.

use crate::err::{err_span, ErrorModel, ParseError, ParseErrorKind};
use crate::integer::{
    base_prefix, digits_value, integer_literal, reads_value, without_underscores, FromIntegerLiteral,
    IntegerParts,
};
use crate::parse::literal_result;
use crate::scan::{hex_or_underscore, lemma_run_end, lemma_run_end_at, run_end};
use crate::{bytes_of, Buffer, Literal};
use vstd::prelude::*;
use vstd::utf8::{encode_utf8, encode_utf8_decode_utf8};

verus! {

/// Round trip: rendering a literal that `Literal::parse` returned (any text
/// whose UTF-8 bytes are the literal's bytes, as `Literal::to_string` gives)
/// yields the input text exactly.
pub proof fn lemma_round_trip<B: Buffer>(input: B, lit: Literal<B>, rendered: Seq<char>)
    requires
        literal_result(bytes_of(&input), Ok::<Literal<B>, ParseError>(lit)),
        encode_utf8(rendered) == lit.bytes(),
    ensures
        rendered == input.text(),
{
    encode_utf8_decode_utf8(rendered);
    encode_utf8_decode_utf8(input.text());
}

/// Reading a value is deterministic: two readings of the same main part in
/// the same radix into the same type give the same result, whether it fits
/// or overflows.
pub proof fn lemma_value_idempotent<N: FromIntegerLiteral>(
    main: Seq<u8>,
    radix: int,
    r1: Option<N>,
    r2: Option<N>,
)
    requires
        reads_value(main, radix, r1),
        reads_value(main, radix, r2),
    ensures
        r1 == r2,
{
    if let (Some(a), Some(b)) = (r1, r2) {
        N::lemma_as_int_injective(a, b);
    }
}

/// Digit separators are transparent: taking the `_` out of a main part does
/// not change its value.
pub proof fn lemma_separators_transparent(s: Seq<u8>, radix: int)
    ensures
        digits_value(without_underscores(s), radix) == digits_value(s, radix),
    decreases s.len(),
{
    if s.len() > 0 {
        lemma_separators_transparent(s.drop_last(), radix);
        if s.last() != 0x5f {
            let w = without_underscores(s.drop_last());
            assert(w.push(s.last()).drop_last() =~= w);
        }
    }
}

/// A main part that holds only separators has no digits: a prefixed integer
/// literal whose main part is all `_` fails with `NoDigits` over the main part.
pub proof fn lemma_all_separators_no_digits(b: Seq<u8>)
    requires
        base_prefix(b).0 == 2,
        forall|i: int| 2 <= i < run_end(b, 2, hex_or_underscore()) ==> b[i] == 0x5f,
    ensures
        integer_literal(b) == Err::<IntegerParts, ErrorModel>(
            err_span(ParseErrorKind::NoDigits, 2, run_end(b, 2, hex_or_underscore())),
        ),
{
    let base = base_prefix(b).1;
    lemma_run_end(b, 2, hex_or_underscore());
    let end_main = run_end(b, 2, hex_or_underscore());
    assert forall|k: int| 2 <= k < end_main implies base.digit_or_underscore()(#[trigger] b[k]) by {
        assert(b[k] == 0x5f);
    }
    lemma_run_end_at(b, 2, end_main, base.digit_or_underscore());
}

} // verus!
