//! Windows: capturing needs no permission.

use vstd::prelude::*;
use crate::text::push_str;

verus! {

/// Always granted on Windows.
pub fn granted() -> (g: bool)
    ensures
        g,
{
    true
}

/// Nothing to request on Windows.
pub fn request() {
}

pub open spec fn hint_text() -> Seq<char> {
    "Windows 无需额外授权。若无法截取某些窗口，请尝试以管理员身份运行。"@
}

pub fn hint() -> (h: String)
    ensures
        h@ == hint_text(),
{
    let mut h = String::new();
    push_str(&mut h, "Windows 无需额外授权。若无法截取某些窗口，请尝试以管理员身份运行。");
    h
}

} // verus!
