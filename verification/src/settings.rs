//! The user's settings and the fixed capture regions kept per monitor.

use vstd::prelude::*;
use std::collections::HashMap;
use crate::text::{push_str, trim, trim_str};

verus! {

broadcast use vstd::std_specs::hash::group_hash_axioms;

/// A rectangle on a monitor, in physical pixels from the monitor's origin.
#[derive(Clone, Copy, Debug, PartialEq, Eq, Structural)]
pub struct Region {
    pub x: i32,
    pub y: i32,
    pub w: u32,
    pub h: u32,
}

impl Default for Region {
    fn default() -> (r: Region)
        ensures
            r == (Region { x: 0, y: 0, w: 0, h: 0 }),
    {
        Region { x: 0, y: 0, w: 0, h: 0 }
    }
}

/// Everything the settings page edits. Fixed regions are kept per monitor id.
#[derive(Clone, Debug)]
pub struct Settings {
    pub capture_hotkey: String,
    pub fixed_hotkey: String,
    pub pin_hotkey: String,
    pub ocr_lang: String,
    pub translate_provider: String,
    pub translate_key: String,
    pub translate_endpoint: String,
    pub translate_model: String,
    pub save_dir: String,
    pub fixed_regions: HashMap<u32, Region>,
    /// Hovering in the overlay outlines the window or control under the cursor.
    pub smart_detect: bool,
    /// What is detected: `window` (top-level windows only) or `control`
    /// (windows and, with accessibility trust, the controls inside them).
    pub smart_detect_level: String,
}

/// The message when a fixed-region capture is asked for before any region was fixed.
pub open spec fn no_fixed_region_text() -> Seq<char> {
    "还没有固定任何区域：先截图，然后在工具栏点「固定区域」"@
}

/// The OCR languages used when none are configured.
pub open spec fn default_ocr_languages() -> Seq<char> {
    "zh-Hans,en-US"@
}

impl Default for Settings {
    fn default() -> (s: Settings)
        ensures
            s.capture_hotkey@ == "CommandOrControl+Shift+A"@,
            s.fixed_hotkey@ == "CommandOrControl+Shift+R"@,
            s.pin_hotkey@ == "CommandOrControl+Shift+V"@,
            s.ocr_lang@ == default_ocr_languages(),
            s.translate_provider@ == "google"@,
            s.translate_key@ == Seq::<char>::empty(),
            s.translate_endpoint@ == Seq::<char>::empty(),
            s.translate_model@ == "gpt-4o-mini"@,
            s.save_dir@ == Seq::<char>::empty(),
            s.fixed_regions@ == Map::<u32, Region>::empty(),
            s.smart_detect,
            s.smart_detect_level@ == "control"@,
    {
        let mut capture_hotkey = String::new();
        push_str(&mut capture_hotkey, "CommandOrControl+Shift+A");
        let mut fixed_hotkey = String::new();
        push_str(&mut fixed_hotkey, "CommandOrControl+Shift+R");
        let mut pin_hotkey = String::new();
        push_str(&mut pin_hotkey, "CommandOrControl+Shift+V");
        let mut ocr_lang = String::new();
        push_str(&mut ocr_lang, "zh-Hans,en-US");
        let mut translate_provider = String::new();
        push_str(&mut translate_provider, "google");
        let mut translate_model = String::new();
        push_str(&mut translate_model, "gpt-4o-mini");
        let mut smart_detect_level = String::new();
        push_str(&mut smart_detect_level, "control");
        Settings {
            capture_hotkey,
            fixed_hotkey,
            pin_hotkey,
            ocr_lang,
            translate_provider,
            translate_key: String::new(),
            translate_endpoint: String::new(),
            translate_model,
            save_dir: String::new(),
            fixed_regions: HashMap::new(),
            smart_detect: true,
            smart_detect_level,
        }
    }
}

impl Settings {
    /// All fields but the fixed regions are those of `other`.
    pub open spec fn same_except_regions(&self, other: &Settings) -> bool {
        &&& self.capture_hotkey@ == other.capture_hotkey@
        &&& self.fixed_hotkey@ == other.fixed_hotkey@
        &&& self.pin_hotkey@ == other.pin_hotkey@
        &&& self.ocr_lang@ == other.ocr_lang@
        &&& self.translate_provider@ == other.translate_provider@
        &&& self.translate_key@ == other.translate_key@
        &&& self.translate_endpoint@ == other.translate_endpoint@
        &&& self.translate_model@ == other.translate_model@
        &&& self.save_dir@ == other.save_dir@
        &&& self.smart_detect == other.smart_detect
        &&& self.smart_detect_level@ == other.smart_detect_level@
    }

    /// Fixes `region` for monitor `monitor_id`, replacing any earlier one.
    pub fn set_fixed_region(&mut self, monitor_id: u32, region: Region)
        ensures
            final(self).fixed_regions@ == old(self).fixed_regions@.insert(monitor_id, region),
            final(self).same_except_regions(old(self)),
    {
        self.fixed_regions.insert(monitor_id, region);
    }

    /// Forgets the fixed region of monitor `monitor_id`.
    pub fn clear_fixed_region(&mut self, monitor_id: u32)
        ensures
            final(self).fixed_regions@ == old(self).fixed_regions@.remove(monitor_id),
            final(self).same_except_regions(old(self)),
    {
        self.fixed_regions.remove(&monitor_id);
    }

    /// The region fixed for monitor `monitor_id`, if any.
    pub fn fixed_region(&self, monitor_id: u32) -> (r: Option<Region>)
        ensures
            match r {
                Some(reg) => self.fixed_regions@.contains_key(monitor_id)
                    && self.fixed_regions@[monitor_id] == reg,
                None => !self.fixed_regions@.contains_key(monitor_id),
            },
    {
        match self.fixed_regions.get(&monitor_id) {
            Some(r) => Some(*r),
            None => None,
        }
    }

    /// The monitor and region a fixed-region capture uses: one of the fixed
    /// regions (which one follows the map's order), or the message that none
    /// is fixed yet.
    pub fn fixed_capture_target(&self) -> (res: Result<(u32, Region), String>)
        ensures
            match res {
                Ok((id, reg)) => self.fixed_regions@.contains_key(id) && self.fixed_regions@[id]
                    == reg,
                Err(m) => self.fixed_regions@.len() == 0 && m@ == no_fixed_region_text(),
            },
    {
        for entry in iter: self.fixed_regions.iter()
            invariant
                iter.index() == 0,
        {
            let (k, v) = entry;
            assert(self.fixed_regions@.contains_key(*iter.seq()[0].0));
            return Ok((*k, *v));
        }
        let mut m = String::new();
        push_str(&mut m, "还没有固定任何区域：先截图，然后在工具栏点「固定区域」");
        Err(m)
    }

    /// The OCR languages to ask for: the configured list, or Chinese and
    /// English when it is blank.
    pub fn ocr_languages(&self) -> (langs: String)
        ensures
            langs@ == if trim(self.ocr_lang@).len() == 0 {
                default_ocr_languages()
            } else {
                self.ocr_lang@
            },
    {
        let t = trim_str(self.ocr_lang.as_str());
        if t.as_str().is_empty() {
            let mut d = String::new();
            push_str(&mut d, "zh-Hans,en-US");
            d
        } else {
            self.ocr_lang.clone()
        }
    }

    /// The directory screenshots are saved to without asking, trimmed, or
    /// `None` when it is blank (then a save dialog asks).
    pub fn save_directory(&self) -> (dir: Option<String>)
        ensures
            match dir {
                Some(d) => d@ == trim(self.save_dir@) && d@.len() > 0,
                None => trim(self.save_dir@).len() == 0,
            },
    {
        let t = trim_str(self.save_dir.as_str());
        if t.as_str().is_empty() {
            None
        } else {
            Some(t)
        }
    }
}


/// A fixed region reads back as it was set, and setting one monitor's region
/// leaves every other monitor's region as it was.
pub proof fn law_fixed_region_read_after_set(m: Map<u32, Region>, id: u32, r: Region)
    ensures
        m.insert(id, r).contains_key(id),
        m.insert(id, r)[id] == r,
        forall|k: u32|
            k != id ==> (#[trigger] m.insert(id, r).contains_key(k) == m.contains_key(k) && (
            m.contains_key(k) ==> m.insert(id, r)[k] == m[k])),
{
}

/// A cleared region is gone, and clearing touches no other monitor.
pub proof fn law_fixed_region_cleared(m: Map<u32, Region>, id: u32)
    ensures
        !m.remove(id).contains_key(id),
        forall|k: u32|
            k != id ==> (#[trigger] m.remove(id).contains_key(k) == m.contains_key(k) && (
            m.contains_key(k) ==> m.remove(id)[k] == m[k])),
{
}

/// Once a region is fixed, a fixed-region capture has a target; when it is
/// the only fixed region, it is the one captured.
pub proof fn law_fixed_capture_after_set(m: Map<u32, Region>, id: u32, r: Region)
    requires
        m.dom().finite(),
    ensures
        m.insert(id, r).len() > 0,
        m.dom().subset_of(set![id]) ==> forall|k: u32|
            #[trigger] m.insert(id, r).contains_key(k) ==> k == id,
{
    assert(m.insert(id, r).dom().contains(id));
    vstd::set_lib::lemma_set_empty_equivalency_len(m.insert(id, r).dom());
}

} // verus!
