//! Source locations: 1-based row and byte-based column.

use vstd::prelude::*;

use crate::text::{all_ascii, ascii_to_string, dec_rep, dec_rep_ascii, to_decimal};

verus! {

/// Location in the source file.  `row` counts physical lines from 1;
/// `column` counts bytes from the start of the line, also from 1.
#[derive(Clone, Copy, PartialEq, Eq, Structural, Debug)]
pub struct Location {
    pub row: usize,
    pub column: usize,
}

/// The characters of `row:column` in decimal.
pub open spec fn location_text(loc: Location) -> Seq<char> {
    (dec_rep(loc.row as nat) + seq![0x3au8] + dec_rep(loc.column as nat)).map_values(
        |b: u8| b as char,
    )
}

impl Location {
    /// Render the location as `row:column` for messages shown to the user.
    pub fn get_text_for_user(&self) -> (r: String)
        ensures
            r@ == location_text(*self),
    {
        let mut bytes = to_decimal(self.row as u64);
        bytes.push(0x3a);
        let mut column_bytes = to_decimal(self.column as u64);
        bytes.append(&mut column_bytes);
        proof {
            assert(bytes@ =~= dec_rep(self.row as nat) + seq![0x3au8] + dec_rep(
                self.column as nat,
            ));
            dec_rep_ascii(self.row as nat);
            dec_rep_ascii(self.column as nat);
            assert(all_ascii(bytes@));
        }
        ascii_to_string(&bytes)
    }
}

} // verus!
