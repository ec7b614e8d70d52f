//! Labels, addresses and sizes of the capture overlay windows, one per monitor.

use vstd::prelude::*;
use crate::text::{dec, has_prefix, push_dec, push_str, starts_with};

verus! {

/// Every overlay window's label starts with this.
pub const OVERLAY_PREFIX: &'static str = "overlay-";

/// The label of the overlay window on monitor `id`.
pub fn overlay_label(id: u32) -> (label: String)
    ensures
        label@ == OVERLAY_PREFIX@ + dec(id as nat),
{
    let mut label = String::new();
    push_str(&mut label, OVERLAY_PREFIX);
    push_dec(&mut label, id as u128);
    label
}

/// Whether a window label names an overlay (closing the overlays hides these).
pub fn is_overlay_label(label: &str) -> (r: bool)
    ensures
        r == has_prefix(label@, OVERLAY_PREFIX@),
{
    starts_with(label, OVERLAY_PREFIX)
}

/// Every overlay label is recognised as one, whatever the monitor.
pub proof fn lemma_overlay_label_recognised(id: u32)
    ensures
        has_prefix(OVERLAY_PREFIX@ + dec(id as nat), OVERLAY_PREFIX@),
{
    let s = OVERLAY_PREFIX@ + dec(id as nat);
    assert(s.take(OVERLAY_PREFIX@.len() as int) =~= OVERLAY_PREFIX@);
}

/// The page address the overlay of monitor `id` loads.
pub fn overlay_url(id: u32) -> (url: String)
    ensures
        url@ == "index.html?win=overlay&m="@ + dec(id as nat),
{
    let mut url = String::new();
    push_str(&mut url, "index.html?win=overlay&m=");
    push_dec(&mut url, id as u128);
    url
}

/// The overlay's size in physical pixels: large enough for both the monitor
/// and its snapshot.
pub fn overlay_size(width: u32, height: u32, img_width: u32, img_height: u32) -> (s: (u32, u32))
    ensures
        s.0 == if width >= img_width { width } else { img_width },
        s.1 == if height >= img_height { height } else { img_height },
{
    let w = if width >= img_width { width } else { img_width };
    let h = if height >= img_height { height } else { img_height };
    (w, h)
}

} // verus!
