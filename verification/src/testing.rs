//! Helpers for building response streams by hand.

use crate::wire::END_OF_MESSAGE;
use vstd::prelude::*;

verus! {

/// Add the end of message byte to the data
pub fn write_eom(data: &mut Vec<u8>)
    ensures
        final(data)@ == old(data)@.push(END_OF_MESSAGE),
{
    data.push(0xc1);
}

} // verus!
