use vstd::prelude::*;

pub mod decoder;
pub mod view;

verus! {

/// Everything that can go wrong in this library: a header whose magic or
/// shape is wrong, a file shorter than its header declares, or a selection
/// that points past the last image.
#[derive(Clone, Copy, Debug, PartialEq, Eq, Structural)]
pub enum ViewerError {
    FormatError,
    TruncationError,
    IndexOutOfRange,
}

} // verus!
