//! Screen-recording permission: the report shown to the user, and the hints
//! of each platform. Whether access is granted is asked of the system by the
//! application; here it is an argument.

pub mod macos;
pub mod other;
pub mod windows;

use vstd::prelude::*;
use crate::text::push_str;

verus! {

/// Whether screen recording is allowed, and what to tell the user if not.
pub struct Permission {
    pub granted: bool,
    pub hint: String,
}

/// The permission report for a system that answered `granted`, with the
/// platform's `hint`; the flag is whether access must be requested (exactly
/// when it is not granted).
pub fn check(granted: bool, hint: &str) -> (r: (Permission, bool))
    ensures
        r.0.granted == granted,
        r.0.hint@ == if granted {
            Seq::<char>::empty()
        } else {
            hint@
        },
        r.1 == !granted,
{
    let mut h = String::new();
    if !granted {
        push_str(&mut h, hint);
    }
    (Permission { granted, hint: h }, !granted)
}

} // verus!
