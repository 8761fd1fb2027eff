use vstd::prelude::*;

verus! {

/// An account or contract address, in its string form.
pub type Address = String;

} // verus!
