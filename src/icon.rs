//! The group's icon.
use vstd::prelude::*;

verus! {

/// An icon image, as PNG bytes.
pub struct Icon(pub Vec<u8>);

} // verus!
