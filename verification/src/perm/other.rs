//! Other platforms: capturing is not supported.

use vstd::prelude::*;
use crate::text::push_str;

verus! {

/// Never granted on a platform the tool does not support.
pub fn granted() -> (g: bool)
    ensures
        !g,
{
    false
}

/// Nothing can be requested on an unsupported platform.
pub fn request() {
}

pub open spec fn hint_text() -> Seq<char> {
    "当前平台暂未适配。"@
}

pub fn hint() -> (h: String)
    ensures
        h@ == hint_text(),
{
    let mut h = String::new();
    push_str(&mut h, "当前平台暂未适配。");
    h
}

} // verus!
