//! Window and control detection. The hit test itself reads the window list
//! and accessibility tree of macOS in floating point and stays with the
//! application; what the library holds is the trust answer elsewhere.

use vstd::prelude::*;

verus! {

/// Whether control-level detection may use the accessibility API. Outside
/// macOS nothing has to be granted, so the answer is always yes.
pub fn ax_trusted() -> (t: bool)
    ensures
        t,
{
    true
}

} // verus!
