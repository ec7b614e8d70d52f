//! Choices made while capturing monitors: which monitor, under which id and
//! name, with which geometry, and which part of a fixed region is on screen.

use vstd::prelude::*;
use crate::pixels::{clamp_len, clamp_start, RgbaPixels};
use crate::settings::Region;
use crate::text::{dec, push_dec, push_str};

verus! {

/// The message when no monitor can be captured.
pub open spec fn no_monitor_text() -> Seq<char> {
    "没有可用的显示器"@
}

pub fn no_monitor_message() -> (m: String)
    ensures
        m@ == no_monitor_text(),
{
    let mut m = String::new();
    push_str(&mut m, "没有可用的显示器");
    m
}

/// The id a monitor is matched by: its id, or `u32::MAX` when it has none.
pub open spec fn match_key(id: Option<u32>) -> u32 {
    match id {
        Some(v) => v,
        None => u32::MAX,
    }
}

/// Picks the monitor a fixed region belongs to among monitors with the given
/// ids: the first whose id is `monitor_id`, else the first monitor.
pub fn select_monitor(ids: &[Option<u32>], monitor_id: u32) -> (res: Result<usize, String>)
    ensures
        match res {
            Ok(i) => i < ids@.len() && (if exists|k: int|
                0 <= k < ids@.len() && match_key(#[trigger] ids@[k]) == monitor_id {
                match_key(ids@[i as int]) == monitor_id && forall|k: int|
                    0 <= k < i ==> match_key(#[trigger] ids@[k]) != monitor_id
            } else {
                i == 0
            }),
            Err(m) => ids@.len() == 0 && m@ == no_monitor_text(),
        },
{
    let mut i: usize = 0;
    while i < ids.len()
        invariant
            i <= ids.len(),
            forall|k: int| 0 <= k < i ==> match_key(#[trigger] ids@[k]) != monitor_id,
        decreases ids.len() - i,
    {
        let key = match ids[i] {
            Some(v) => v,
            None => u32::MAX,
        };
        if key == monitor_id {
            return Ok(i);
        }
        i = i + 1;
    }
    if ids.len() == 0 {
        Err(no_monitor_message())
    } else {
        Ok(0)
    }
}

/// A monitor's id: the reported one, else its position (cast to `u32`).
pub fn monitor_id(id: Option<u32>, index: usize) -> (r: u32)
    ensures
        r == match id {
            Some(v) => v,
            None => index as u32,
        },
{
    match id {
        Some(v) => v,
        None => index as u32,
    }
}

/// A monitor's display name: the reported one, else `显示器 {index + 1}`.
pub fn monitor_name(friendly: Option<String>, index: usize) -> (name: String)
    requires
        index < usize::MAX,
    ensures
        name@ == match friendly {
            Some(n) => n@,
            None => "显示器 "@ + dec((index + 1) as nat),
        },
{
    match friendly {
        Some(n) => n,
        None => {
            let mut name = String::new();
            push_str(&mut name, "显示器 ");
            push_dec(&mut name, (index + 1) as u128);
            name
        },
    }
}

/// A monitor's origin and size: the window system's geometry when it reports
/// one, else the monitor's own origin (0 when unknown) with the snapshot size.
pub fn monitor_bounds(
    given: Option<(i32, i32, u32, u32)>,
    x: Option<i32>,
    y: Option<i32>,
    img_width: u32,
    img_height: u32,
) -> (b: (i32, i32, u32, u32))
    ensures
        b == match given {
            Some(g) => g,
            None => (
                match x {
                    Some(v) => v,
                    None => 0,
                },
                match y {
                    Some(v) => v,
                    None => 0,
                },
                img_width,
                img_height,
            ),
        },
{
    match given {
        Some(g) => g,
        None => {
            let bx = match x {
                Some(v) => v,
                None => 0,
            };
            let by = match y {
                Some(v) => v,
                None => 0,
            };
            (bx, by, img_width, img_height)
        },
    }
}

/// The message when a fixed region lies off the captured screen.
pub open spec fn off_screen_text() -> Seq<char> {
    "固定区域已超出当前屏幕范围"@
}

/// The part of a fixed region that lies on an `img_width` x `img_height`
/// screen image: start moved to non-negative coordinates, size cut to the
/// image; an error when nothing of it is left.
pub open spec fn fixed_bounds_spec(r: Region, img_width: u32, img_height: u32) -> Result<
    (u32, u32, u32, u32),
    Seq<char>,
> {
    let sx: int = if r.x > 0 { r.x as int } else { 0 };
    let sy: int = if r.y > 0 { r.y as int } else { 0 };
    let rw: int = if img_width >= sx { img_width - sx } else { 0 };
    let rh: int = if img_height >= sy { img_height - sy } else { 0 };
    let w: int = if r.w <= rw { r.w as int } else { rw };
    let h: int = if r.h <= rh { r.h as int } else { rh };
    if w == 0 || h == 0 {
        Err(off_screen_text())
    } else {
        Ok((sx as u32, sy as u32, w as u32, h as u32))
    }
}

/// Computes the on-screen part of a fixed region. What it returns always lies
/// inside the image and is not empty.
pub fn fixed_region_bounds(r: &Region, img_width: u32, img_height: u32) -> (res: Result<
    (u32, u32, u32, u32),
    String,
>)
    ensures
        match res {
            Ok(b) => fixed_bounds_spec(*r, img_width, img_height) == Ok::<
                (u32, u32, u32, u32),
                Seq<char>,
            >(b) && 0 < b.2 && 0 < b.3 && b.0 + b.2 <= img_width && b.1 + b.3 <= img_height,
            Err(m) => fixed_bounds_spec(*r, img_width, img_height) == Err::<
                (u32, u32, u32, u32),
                Seq<char>,
            >(m@),
        },
{
    let sx: u32 = if r.x > 0 { r.x as u32 } else { 0 };
    let sy: u32 = if r.y > 0 { r.y as u32 } else { 0 };
    let rw = img_width.saturating_sub(sx);
    let rh = img_height.saturating_sub(sy);
    let w = if r.w <= rw { r.w } else { rw };
    let h = if r.h <= rh { r.h } else { rh };
    if w == 0 || h == 0 {
        let mut m = String::new();
        push_str(&mut m, "固定区域已超出当前屏幕范围");
        Err(m)
    } else {
        Ok((sx, sy, w, h))
    }
}

/// Crops the on-screen part of a fixed region out of a monitor's image.
pub fn crop_fixed_region(img: &RgbaPixels, r: &Region) -> (res: Result<RgbaPixels, String>)
    requires
        img.wf(),
    ensures
        match res {
            Ok(p) => exists|b: (u32, u32, u32, u32)|
                fixed_bounds_spec(*r, img.width, img.height) == Ok::<
                    (u32, u32, u32, u32),
                    Seq<char>,
                >(b) && p.wf() && p.width == b.2 && p.height == b.3 && forall|i: int, j: int, c: int|
                    0 <= i < b.2 && 0 <= j < b.3 && 0 <= c < 4 ==> #[trigger] p.at(i, j, c)
                        == img.at(b.0 + i, b.1 + j, c),
            Err(m) => fixed_bounds_spec(*r, img.width, img.height) == Err::<
                (u32, u32, u32, u32),
                Seq<char>,
            >(m@),
        },
{
    match fixed_region_bounds(r, img.width, img.height) {
        Ok(b) => {
            let (sx, sy, w, h) = b;
            let p = img.crop(sx, sy, w, h);
            assert(clamp_start(img.width, sx) == sx);
            assert(clamp_start(img.height, sy) == sy);
            assert(clamp_len(img.width, sx, w) == w);
            assert(clamp_len(img.height, sy, h) == h);
            Ok(p)
        },
        Err(m) => Err(m),
    }
}

} // verus!
