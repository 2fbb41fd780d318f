//! The footer of a container: the position of the metadata table as sixteen
//! decimal digits.

use crate::container::{footer_limit, footer_width, ExtractError, PackError};
use crate::decimal::{
    all_digits, decimal, digits_value, lemma_decimal_shape, lemma_digits_round_trip,
    parse_decimal, pow10, push_decimal,
};
use crate::metadata::METADATA_OFFSET_SIZE;
use vstd::prelude::*;

verus! {

/// The first table position that does not fit the footer: ten to the
/// sixteenth.
pub const FOOTER_LIMIT: u64 = 10_000_000_000_000_000;

/// The footer limit is ten to the sixteenth.
pub proof fn lemma_footer_limit()
    ensures
        footer_limit() == FOOTER_LIMIT,
        footer_width() == METADATA_OFFSET_SIZE,
{
    reveal_with_fuel(pow10, 17);
}

/// The footer for a metadata table that begins at `offset`: the offset in
/// decimal, padded with zeros to exactly sixteen digits.
///
/// Fails with `Write` where the offset has more than sixteen digits.
pub fn encode_footer(offset: u64) -> (r: Result<Vec<u8>, PackError>)
    ensures
        match r {
            Ok(footer) => {
                &&& offset < footer_limit()
                &&& footer@ == decimal(offset as nat, footer_width())
                &&& footer@.len() == footer_width()
            },
            Err(e) => offset >= footer_limit() && e == PackError::Write,
        },
{
    proof {
        lemma_footer_limit();
        lemma_decimal_shape(offset as nat, footer_width());
    }
    if offset >= FOOTER_LIMIT {
        return Err(PackError::Write);
    }
    let mut footer: Vec<u8> = Vec::new();
    push_decimal(&mut footer, offset, METADATA_OFFSET_SIZE);
    assert(footer@ =~= decimal(offset as nat, footer_width()));
    Ok(footer)
}

/// The position that `footer` gives.
///
/// Fails with `Format` unless `footer` is exactly sixteen decimal digits.
pub fn decode_footer(footer: &[u8]) -> (r: Result<u64, ExtractError>)
    ensures
        match r {
            Ok(offset) => {
                &&& footer@.len() == footer_width()
                &&& all_digits(footer@)
                &&& offset == digits_value(footer@)
                &&& offset < footer_limit()
            },
            Err(e) => e == ExtractError::Format && !(footer@.len() == footer_width() && all_digits(
                footer@,
            )),
        },
{
    if footer.len() != METADATA_OFFSET_SIZE {
        return Err(ExtractError::Format);
    }
    proof {
        lemma_footer_limit();
        if all_digits(footer@) {
            lemma_digits_round_trip(footer@);
        }
    }
    match parse_decimal(footer) {
        Some(offset) => Ok(offset),
        None => Err(ExtractError::Format),
    }
}

} // verus!
