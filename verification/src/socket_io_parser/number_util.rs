//! Decimal digit recognition.

use vstd::prelude::*;

verus! {

/// Maps a decimal digit character to its value, `None` for any other
/// character.
pub fn convert_char_to_number(c: char) -> (r: Option<u8>)
    ensures
        r == crate::spec_char_to_number(c),
{
    match c {
        '0' => Some(0),
        '1' => Some(1),
        '2' => Some(2),
        '3' => Some(3),
        '4' => Some(4),
        '5' => Some(5),
        '6' => Some(6),
        '7' => Some(7),
        '8' => Some(8),
        '9' => Some(9),
        _ => None,
    }
}

} // verus!
