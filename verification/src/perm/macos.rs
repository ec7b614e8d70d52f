//! macOS: access is asked of Core Graphics by the application.

use vstd::prelude::*;
use crate::text::push_str;

verus! {

pub open spec fn hint_text() -> Seq<char> {
    "需要「屏幕录制」权限。请在 系统设置 → 隐私与安全性 → 屏幕录制 中勾选 Shotly，然后**完全退出（⌘Q）再重新启动**才生效——只关窗口是没用的。"@
}

/// How to grant screen recording on macOS.
pub fn hint() -> (h: String)
    ensures
        h@ == hint_text(),
{
    let mut h = String::new();
    push_str(
        &mut h,
        "需要「屏幕录制」权限。请在 系统设置 → 隐私与安全性 → 屏幕录制 中勾选 Shotly，然后**完全退出（⌘Q）再重新启动**才生效——只关窗口是没用的。",
    );
    h
}

} // verus!
