//! Reading the slice size from the command line.

use vstd::prelude::*;
use crate::decimal::{parse_usize, read_usize};
use crate::report::{ErrorKind, MIN_FILE_SLICE_SIZE};

verus! {

/// What `text` gives as a slice size: the number that it writes in decimal,
/// unless it writes none that fits the machine, or one too small.
pub open spec fn size_of_text(text: Seq<char>) -> Result<usize, ErrorKind> {
    match read_usize(text) {
        None => Err(ErrorKind::InvalidSize),
        Some(size) => if size < MIN_FILE_SLICE_SIZE {
            Err(ErrorKind::SizeTooSmall)
        } else {
            Ok(size)
        },
    }
}

/// Reads the slice size, in bytes, from `s`.
pub fn parse_size(s: &str) -> (r: Result<usize, ErrorKind>)
    ensures
        r == size_of_text(s@),
        r matches Ok(size) ==> size >= 1,
{
    match parse_usize(s) {
        None => Err(ErrorKind::InvalidSize),
        Some(size) => {
            if size < MIN_FILE_SLICE_SIZE {
                Err(ErrorKind::SizeTooSmall)
            } else {
                Ok(size)
            }
        },
    }
}

} // verus!
