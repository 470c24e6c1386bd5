//! The emulated ISteamScreenshots interface: a library of screenshots held
//! under handles drawn from their own counter.
use crate::cbuf::{append_bytes, decimal, decimal_bytes};
use std::collections::HashMap;
use vstd::prelude::*;
use vstd::string::*;

verus! {

broadcast use vstd::std_specs::hash::group_hash_axioms;

pub struct Screenshot {
    pub handle: u32,
    pub filename: Vec<u8>,
    pub width: u32,
    pub height: u32,
    pub tagged: bool,
    pub location: String,
}

pub struct ScreenshotView {
    pub filename: Seq<u8>,
    pub width: u32,
    pub height: u32,
    pub tagged: bool,
    pub location: Seq<char>,
}

impl Screenshot {
    pub open spec fn view(&self) -> ScreenshotView {
        ScreenshotView {
            filename: self.filename@,
            width: self.width,
            height: self.height,
            tagged: self.tagged,
            location: self.location@,
        }
    }
}

/// `screenshot_<handle>.png`
pub open spec fn captured_file_name(handle: u32) -> Seq<u8> {
    seq![115u8, 99, 114, 101, 101, 110, 115, 104, 111, 116, 95] + decimal(handle as nat) + seq![
        46u8,
        112,
        110,
        103,
    ]
}

/// `screenshot.png`, the name used when the caller's name is unreadable.
pub open spec fn default_file_name() -> Seq<u8> {
    seq![115u8, 99, 114, 101, 101, 110, 115, 104, 111, 116, 46, 112, 110, 103]
}

pub open spec fn new_shot(filename: Seq<u8>, width: i32, height: i32) -> ScreenshotView {
    ScreenshotView {
        filename,
        width: width as u32,
        height: height as u32,
        tagged: false,
        location: Seq::empty(),
    }
}

pub struct ScreenshotLibrary {
    pub shots: HashMap<u32, Screenshot>,
    pub next_handle: u32,
}

impl ScreenshotLibrary {
    pub open spec fn wf(&self) -> bool {
        &&& forall|h: u32| #[trigger]
            self.shots@.contains_key(h) ==> self.shots@[h].handle == h && h < self.next_handle
        &&& self.next_handle >= 1
    }

    pub open spec fn shots_view(&self) -> Map<u32, ScreenshotView> {
        self.shots@.map_values(|s: Screenshot| s@)
    }

    pub fn new() -> (l: Self)
        ensures
            l.wf(),
            l.shots_view() == Map::<u32, ScreenshotView>::empty(),
            l.next_handle == 1,
    {
        let l = ScreenshotLibrary { shots: HashMap::new(), next_handle: 1 };
        assert(l.shots_view() =~= Map::<u32, ScreenshotView>::empty());
        l
    }

    fn store(&mut self, filename: Vec<u8>, width: i32, height: i32) -> (h: u32)
        requires
            old(self).wf(),
            old(self).next_handle < u32::MAX,
        ensures
            final(self).wf(),
            h == old(self).next_handle,
            !old(self).shots@.contains_key(h),
            final(self).next_handle == h + 1,
            final(self).shots_view() == old(self).shots_view().insert(
                h,
                new_shot(filename@, width, height),
            ),
    {
        let h = self.next_handle;
        self.next_handle = h + 1;
        let shot = Screenshot {
            handle: h,
            filename,
            width: width as u32,
            height: height as u32,
            tagged: false,
            location: String::new(),
        };
        let ghost old_view = old(self).shots_view();
        assert(shot@ == new_shot(shot.filename@, width, height));
        self.shots.insert(h, shot);
        assert(self.shots_view() =~= old_view.insert(h, new_shot(shot.filename@, width, height)));
        h
    }

    /// Records a captured screenshot named after its handle.
    pub fn write_screenshot(&mut self, width: i32, height: i32) -> (h: u32)
        requires
            old(self).wf(),
            old(self).next_handle < u32::MAX,
        ensures
            final(self).wf(),
            h == old(self).next_handle,
            final(self).next_handle == h + 1,
            final(self).shots_view() == old(self).shots_view().insert(
                h,
                new_shot(captured_file_name(h), width, height),
            ),
    {
        let h = self.next_handle;
        let mut name: Vec<u8> = vec![115u8, 99, 114, 101, 101, 110, 115, 104, 111, 116, 95];
        let digits = decimal_bytes(h as u64);
        append_bytes(&mut name, digits.as_slice());
        let ext: Vec<u8> = vec![46u8, 112, 110, 103];
        append_bytes(&mut name, ext.as_slice());
        assert(name@ =~= captured_file_name(h));
        self.store(name, width, height)
    }

    /// Adds an existing file to the library; `None` stands for a name that was
    /// not valid UTF-8, stored as `screenshot.png`.
    pub fn add_screenshot_to_library(&mut self, filename: Option<&str>, width: i32, height: i32) -> (h: u32)
        requires
            old(self).wf(),
            old(self).next_handle < u32::MAX,
        ensures
            final(self).wf(),
            h == old(self).next_handle,
            final(self).next_handle == h + 1,
            final(self).shots_view() == old(self).shots_view().insert(
                h,
                new_shot(
                    match filename {
                        Some(f) => crate::cbuf::utf8_bytes(f@),
                        None => default_file_name(),
                    },
                    width,
                    height,
                ),
            ),
    {
        let name: Vec<u8> = match filename {
            Some(f) => {
                let mut v: Vec<u8> = Vec::new();
                append_bytes(&mut v, f.as_bytes());
                assert(v@ =~= f.spec_bytes());
                v
            },
            None => {
                let v: Vec<u8> = vec![115u8, 99, 114, 101, 101, 110, 115, 104, 111, 116, 46, 112, 110, 103];
                assert(v@ =~= default_file_name());
                v
            },
        };
        self.store(name, width, height)
    }

    /// Adds a VR screenshot: an ordinary library entry of 1920 by 1080.
    pub fn add_vr_screenshot_to_library(&mut self, filename: Option<&str>) -> (h: u32)
        requires
            old(self).wf(),
            old(self).next_handle < u32::MAX,
        ensures
            final(self).wf(),
            h == old(self).next_handle,
            final(self).next_handle == h + 1,
            final(self).shots_view() == old(self).shots_view().insert(
                h,
                new_shot(
                    match filename {
                        Some(f) => crate::cbuf::utf8_bytes(f@),
                        None => default_file_name(),
                    },
                    1920,
                    1080,
                ),
            ),
    {
        self.add_screenshot_to_library(filename, 1920, 1080)
    }

    /// Sets where screenshot `h` was taken.
    pub fn set_location(&mut self, h: u32, location: &str) -> (ok: bool)
        requires
            old(self).wf(),
        ensures
            final(self).wf(),
            ok == old(self).shots@.contains_key(h),
            ok ==> final(self).shots_view() == old(self).shots_view().insert(
                h,
                ScreenshotView { location: location@, ..old(self).shots_view()[h] },
            ),
            !ok ==> final(self).shots_view() == old(self).shots_view(),
            final(self).next_handle == old(self).next_handle,
    {
        let ghost old_view = old(self).shots_view();
        match self.shots.remove(&h) {
            Some(mut s) => {
                s.location = String::from_str(location);
                let ghost v = s@;
                self.shots.insert(h, s);
                assert(self.shots_view() =~= old_view.insert(h, v));
                true
            },
            None => {
                assert(self.shots_view() =~= old_view);
                false
            },
        }
    }

    /// Marks screenshot `h` as showing a user.
    pub fn tag_user(&mut self, h: u32) -> (ok: bool)
        requires
            old(self).wf(),
        ensures
            final(self).wf(),
            ok == old(self).shots@.contains_key(h),
            ok ==> final(self).shots_view() == old(self).shots_view().insert(
                h,
                ScreenshotView { tagged: true, ..old(self).shots_view()[h] },
            ),
            !ok ==> final(self).shots_view() == old(self).shots_view(),
            final(self).next_handle == old(self).next_handle,
    {
        let ghost old_view = old(self).shots_view();
        match self.shots.remove(&h) {
            Some(mut s) => {
                s.tagged = true;
                let ghost v = s@;
                self.shots.insert(h, s);
                assert(self.shots_view() =~= old_view.insert(h, v));
                true
            },
            None => {
                assert(self.shots_view() =~= old_view);
                false
            },
        }
    }

    /// Whether `h` names a screenshot (the answer to tagging a published file).
    pub fn has_screenshot(&self, h: u32) -> (r: bool)
        ensures
            r == self.shots@.contains_key(h),
    {
        self.shots.contains_key(&h)
    }
}

/// A captured screenshot's file is `screenshot_`, its handle in base 10,
/// then `.png`: the digits between read back as the handle.
pub proof fn lemma_captured_file_names_handle(handle: u32)
    ensures
        exists|d: Seq<u8>|
            #![trigger crate::cbuf::decimal_value(d)]
            captured_file_name(handle) == seq![115u8, 99, 114, 101, 101, 110, 115, 104, 111, 116, 95] + d
                + seq![46u8, 112, 110, 103] && d.len() >= 1 && crate::cbuf::all_decimal_digits(d)
                && crate::cbuf::decimal_value(d) == handle,
{
    crate::cbuf::lemma_decimal_reads_back(handle as nat);
    let d = decimal(handle as nat);
    assert(crate::cbuf::decimal_value(d) == handle);
}

} // verus!

