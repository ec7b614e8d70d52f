//! The computing part of the commands the pages invoke: crop geometry,
//! window addresses and labels, file names and pin placement.

use vstd::prelude::*;
use crate::pixels::{clamp_len, clamp_start, RgbaPixels};
use crate::text::{dec, push_dec, push_str};
use crate::settings::Settings;
use crate::text::str_eq;
use crate::util::{path_enc, urlencode};
use vstd::utf8::encode_utf8;

verus! {

/// `max(v, 0)` as an unsigned offset.
pub open spec fn non_negative(v: i32) -> u32 {
    if v > 0 {
        v as u32
    } else {
        0
    }
}

/// The rectangle a selection crops: the start moved to non-negative
/// coordinates, the size cut to what is left of the image but at least 1.
pub open spec fn crop_bounds_spec(x: i32, y: i32, w: u32, h: u32, img_w: u32, img_h: u32) -> (
    u32,
    u32,
    u32,
    u32,
) {
    let sx = non_negative(x);
    let sy = non_negative(y);
    let rw: int = if img_w >= sx { img_w - sx } else { 0 };
    let rh: int = if img_h >= sy { img_h - sy } else { 0 };
    let cw: int = if w <= rw { w as int } else { rw };
    let ch: int = if h <= rh { h as int } else { rh };
    (sx, sy, if cw >= 1 { cw as u32 } else { 1 }, if ch >= 1 { ch as u32 } else { 1 })
}

/// Computes the crop rectangle of a selection on an `img_w` x `img_h` snapshot.
pub fn crop_bounds(x: i32, y: i32, w: u32, h: u32, img_w: u32, img_h: u32) -> (r: (
    u32,
    u32,
    u32,
    u32,
))
    ensures
        r == crop_bounds_spec(x, y, w, h, img_w, img_h),
{
    let sx: u32 = if x > 0 { x as u32 } else { 0 };
    let sy: u32 = if y > 0 { y as u32 } else { 0 };
    let cw = if w < img_w.saturating_sub(sx) { w } else { img_w.saturating_sub(sx) };
    let ch = if h < img_h.saturating_sub(sy) { h } else { img_h.saturating_sub(sy) };
    let cw = if cw > 1 { cw } else { 1 };
    let ch = if ch > 1 { ch } else { 1 };
    (sx, sy, cw, ch)
}

/// The crop of a selection starts on each axis at that axis's coordinate
/// moved to 0 when negative, whatever the other axis holds; its size is the
/// selection's when the selection fits in the image, is cut to the image
/// when it does not (but never below 1), and never exceeds the selection's
/// (or 1).
pub proof fn law_crop_bounds_per_axis(x: i32, y: i32, w: u32, h: u32, img_w: u32, img_h: u32)
    ensures
        ({
            let r = crop_bounds_spec(x, y, w, h, img_w, img_h);
            &&& r.0 as int == if x > 0 { x as int } else { 0 }
            &&& r.1 as int == if y > 0 { y as int } else { 0 }
            &&& 1 <= r.2 && (r.2 <= w || r.2 == 1)
            &&& 1 <= r.3 && (r.3 <= h || r.3 == 1)
            &&& r.0 + w <= img_w ==> r.2 == (if w >= 1 { w } else { 1 })
            &&& r.1 + h <= img_h ==> r.3 == (if h >= 1 { h } else { 1 })
            &&& r.0 < img_w ==> r.0 + r.2 <= img_w
            &&& r.1 < img_h ==> r.1 + r.3 <= img_h
        }),
{
}

/// A cropped selection: the pixels and the size reported to the page.
pub struct Cropped {
    pub pixels: RgbaPixels,
    pub width: u32,
    pub height: u32,
}

/// Crops a selection out of a snapshot. The reported size is that of
/// `crop_bounds`; the pixels are those `image` crops for that rectangle.
pub fn crop_selection(img: &RgbaPixels, x: i32, y: i32, w: u32, h: u32) -> (c: Cropped)
    requires
        img.wf(),
    ensures
        ({
            let (sx, sy, cw, ch) = crop_bounds_spec(x, y, w, h, img.width, img.height);
            &&& c.width == cw
            &&& c.height == ch
            &&& c.pixels.wf()
            &&& c.pixels.width == clamp_len(img.width, sx, cw)
            &&& c.pixels.height == clamp_len(img.height, sy, ch)
            &&& forall|i: int, j: int, k: int|
                0 <= i < c.pixels.width && 0 <= j < c.pixels.height && 0 <= k < 4
                    ==> #[trigger] c.pixels.at(i, j, k) == img.at(
                    clamp_start(img.width, sx) + i,
                    clamp_start(img.height, sy) + j,
                    k,
                )
        }),
{
    let (sx, sy, cw, ch) = crop_bounds(x, y, w, h, img.width, img.height);
    let pixels = img.crop(sx, sy, cw, ch);
    Cropped { pixels, width: cw, height: ch }
}

/// The page address of the editor window for a screenshot at `path`.
pub open spec fn editor_url_spec(path: Seq<char>, ocr: bool) -> Seq<char> {
    "index.html?win=editor&src="@ + path_enc(encode_utf8(path)) + "&ocr="@ + if ocr {
        "1"@
    } else {
        "0"@
    }
}

pub fn editor_url(path: &str, do_ocr: bool) -> (url: String)
    ensures
        url@ == editor_url_spec(path@, do_ocr),
{
    let mut url = String::new();
    push_str(&mut url, "index.html?win=editor&src=");
    let p = urlencode(path);
    push_str(&mut url, p.as_str());
    push_str(&mut url, "&ocr=");
    if do_ocr {
        push_str(&mut url, "1");
    } else {
        push_str(&mut url, "0");
    }
    url
}

/// The page address of a pinned screenshot of `w` x `h` pixels at `path`.
pub open spec fn pin_url_spec(path: Seq<char>, w: u32, h: u32) -> Seq<char> {
    "index.html?win=pin&src="@ + path_enc(encode_utf8(path)) + "&w="@ + dec(w as nat) + "&h="@
        + dec(h as nat)
}

pub fn pin_url(path: &str, w: u32, h: u32) -> (url: String)
    ensures
        url@ == pin_url_spec(path@, w, h),
{
    let mut url = String::new();
    push_str(&mut url, "index.html?win=pin&src=");
    let p = urlencode(path);
    push_str(&mut url, p.as_str());
    push_str(&mut url, "&w=");
    push_dec(&mut url, w as u128);
    push_str(&mut url, "&h=");
    push_dec(&mut url, h as u128);
    url
}

/// The label of a pin window created at time stamp `stamp`.
pub fn pin_label(stamp: u128) -> (label: String)
    ensures
        label@ == "pin-"@ + dec(stamp as nat),
{
    let mut label = String::new();
    push_str(&mut label, "pin-");
    push_dec(&mut label, stamp);
    label
}

/// The file name a screenshot is saved under at time stamp `stamp`.
pub fn save_file_name(stamp: u128) -> (name: String)
    ensures
        name@ == "shotly-"@ + dec(stamp as nat) + ".png"@,
{
    let mut name = String::new();
    push_str(&mut name, "shotly-");
    push_dec(&mut name, stamp);
    push_str(&mut name, ".png");
    name
}

/// The primary monitor assumed when none is reported: 1920 x 1080 at the origin.
pub open spec fn fallback_monitor() -> (i32, i32, u32, u32) {
    (0, 0, 1920, 1080)
}

/// How far a length `inner` is moved to centre it in `outer`, both taken as
/// `i32` the way the pin placement casts them; never negative.
pub open spec fn centre_offset(outer: u32, inner: u32) -> int {
    let d = (outer as i32) as int - (inner as i32) as int;
    if d > 0 {
        d / 2
    } else {
        0
    }
}

/// Where a pin window of `w` x `h` pixels opens: centred on the primary
/// monitor (`None` stands for the fallback monitor), never left of or above
/// its origin. All in physical pixels.
pub open spec fn pin_origin_spec(primary: Option<(i32, i32, u32, u32)>, w: u32, h: u32) -> (
    int,
    int,
) {
    let (mx, my, mw, mh) = match primary {
        Some(m) => m,
        None => fallback_monitor(),
    };
    (mx + centre_offset(mw, w), my + centre_offset(mh, h))
}

/// The monitor geometry a pin is placed on.
pub open spec fn pin_monitor(primary: Option<(i32, i32, u32, u32)>) -> (i32, i32, u32, u32) {
    match primary {
        Some(m) => m,
        None => fallback_monitor(),
    }
}

/// Computes where a pin window opens. `requires` rules out the sizes whose
/// difference or offset position does not fit in `i32`.
pub fn pin_origin(primary: Option<(i32, i32, u32, u32)>, w: u32, h: u32) -> (p: (i32, i32))
    requires
        i32::MIN <= (pin_monitor(primary).2 as i32) as int - (w as i32) as int <= i32::MAX,
        i32::MIN <= (pin_monitor(primary).3 as i32) as int - (h as i32) as int <= i32::MAX,
        pin_origin_spec(primary, w, h).0 <= i32::MAX,
        pin_origin_spec(primary, w, h).1 <= i32::MAX,
    ensures
        p.0 as int == pin_origin_spec(primary, w, h).0,
        p.1 as int == pin_origin_spec(primary, w, h).1,
{
    let (mx, my, mw, mh) = match primary {
        Some(m) => m,
        None => (0i32, 0i32, 1920u32, 1080u32),
    };
    let dx: i32 = mw as i32 - w as i32;
    let dy: i32 = mh as i32 - h as i32;
    let ox: i32 = if dx > 0 { dx / 2 } else { 0 };
    let oy: i32 = if dy > 0 { dy / 2 } else { 0 };
    (mx + ox, my + oy)
}

/// A pin that fits on the primary monitor opens entirely on it, centred.
pub proof fn law_pin_within_monitor(primary: Option<(i32, i32, u32, u32)>, w: u32, h: u32)
    requires
        w <= pin_monitor(primary).2 <= i32::MAX,
        h <= pin_monitor(primary).3 <= i32::MAX,
    ensures
        ({
            let (mx, my, mw, mh) = pin_monitor(primary);
            let (x, y) = pin_origin_spec(primary, w, h);
            &&& mx <= x && x + w <= mx + mw
            &&& my <= y && y + h <= my + mh
            &&& x - mx == (mw - w) / 2
            &&& y - my == (mh - h) / 2
        }),
{
    let (mx, my, mw, mh) = pin_monitor(primary);
    assert((mw as i32) as int == mw as int);
    assert((w as i32) as int == w as int);
    assert((mh as i32) as int == mh as int);
    assert((h as i32) as int == h as int);
}

/// The message when the clipboard image cannot be read as RGBA.
pub open spec fn clipboard_format_text() -> Seq<char> {
    "剪贴板图片格式不支持"@
}

/// Turns the clipboard's image (its size as `usize`, its RGBA bytes) into an
/// image, the sizes cast to `u32` as the tool casts them.
pub fn clipboard_image(width: usize, height: usize, bytes: Vec<u8>) -> (res: Result<
    RgbaPixels,
    String,
>)
    ensures
        match res {
            Ok(p) => p.wf() && p.width == width as u32 && p.height == height as u32 && p.data@
                == bytes@,
            Err(m) => !crate::pixels::fits(width as u32, height as u32, bytes@.len() as int)
                && m@ == clipboard_format_text(),
        },
{
    match RgbaPixels::from_raw(width as u32, height as u32, bytes) {
        Some(p) => Ok(p),
        None => {
            let mut m = String::new();
            push_str(&mut m, "剪贴板图片格式不支持");
            Err(m)
        },
    }
}


/// What the tray menu, the tray icon and the global shortcuts can start.
#[derive(Clone, Copy, Debug, PartialEq, Eq, Structural)]
pub enum Action {
    /// Capture a region of the screens.
    Capture,
    /// Capture the fixed region.
    FixedCapture,
    /// Pin the clipboard image on screen.
    PinClipboard,
    /// Open the settings window.
    OpenSettings,
    /// Quit the application.
    Quit,
}

/// The action of a tray menu item; unknown items do nothing.
pub open spec fn menu_action_spec(id: Seq<char>) -> Option<Action> {
    if id == "capture"@ {
        Some(Action::Capture)
    } else if id == "fixed"@ {
        Some(Action::FixedCapture)
    } else if id == "pin"@ {
        Some(Action::PinClipboard)
    } else if id == "settings"@ {
        Some(Action::OpenSettings)
    } else if id == "quit"@ {
        Some(Action::Quit)
    } else {
        None
    }
}

pub fn menu_action(id: &str) -> (a: Option<Action>)
    ensures
        a == menu_action_spec(id@),
{
    if str_eq(id, "capture") {
        Some(Action::Capture)
    } else if str_eq(id, "fixed") {
        Some(Action::FixedCapture)
    } else if str_eq(id, "pin") {
        Some(Action::PinClipboard)
    } else if str_eq(id, "settings") {
        Some(Action::OpenSettings)
    } else if str_eq(id, "quit") {
        Some(Action::Quit)
    } else {
        None
    }
}

/// The global shortcuts to register: each configured key with what it starts.
pub fn hotkeys(s: &Settings) -> (h: Vec<(String, Action)>)
    ensures
        h@.len() == 3,
        h@[0].0@ == s.capture_hotkey@ && h@[0].1 == Action::Capture,
        h@[1].0@ == s.fixed_hotkey@ && h@[1].1 == Action::FixedCapture,
        h@[2].0@ == s.pin_hotkey@ && h@[2].1 == Action::PinClipboard,
{
    let mut h: Vec<(String, Action)> = Vec::new();
    h.push((s.capture_hotkey.clone(), Action::Capture));
    h.push((s.fixed_hotkey.clone(), Action::FixedCapture));
    h.push((s.pin_hotkey.clone(), Action::PinClipboard));
    h
}

/// Whether closing a window only hides it: the settings window (`main`) and
/// the editor stay in the background.
pub fn hides_on_close(label: &str) -> (r: bool)
    ensures
        r == (label@ == "main"@ || label@ == "editor"@),
{
    str_eq(label, "main") || str_eq(label, "editor")
}

} // verus!
