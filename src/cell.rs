//! Character cells of a text-mode display: 16 bits, the character code in the
//! low byte and the colour attribute in the high byte.

use vstd::prelude::*;

verus! {

/// The cell that shows character `ch` in colour `attr`.
pub open spec fn cell_of(ch: u8, attr: u8) -> u16 {
    (attr as int * 256 + ch as int) as u16
}

/// The character code held in a cell.
pub open spec fn char_of(cell: u16) -> u8 {
    (cell as int % 256) as u8
}

/// The colour attribute held in a cell.
pub open spec fn attr_of(cell: u16) -> u8 {
    (cell as int / 256) as u8
}

/// Packs a character code and a colour attribute into one cell.
pub fn encode_cell(ch: u8, attr: u8) -> (r: u16)
    ensures
        r == cell_of(ch, attr),
        r as int == attr as int * 256 + ch as int,
{
    (attr as u16) * 256 + (ch as u16)
}

/// A cell gives back the character and the attribute that it was made from.
pub proof fn lemma_cell_bytes(ch: u8, attr: u8)
    ensures
        char_of(cell_of(ch, attr)) == ch,
        attr_of(cell_of(ch, attr)) == attr,
{
    assert(attr as int * 256 + ch as int <= 65535);
}

} // verus!
