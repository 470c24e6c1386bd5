//! The emulated ISteamHTMLSurface interface: embedded browsers held under
//! handles drawn from their own counter.
use std::collections::HashMap;
use vstd::prelude::*;
use vstd::string::*;

verus! {

broadcast use vstd::std_specs::hash::group_hash_axioms;

pub struct Browser {
    pub handle: u32,
    pub url: String,
    pub title: String,
    pub width: u32,
    pub height: u32,
    pub ready: bool,
    pub loading: bool,
}

pub struct BrowserView {
    pub url: Seq<char>,
    pub title: Seq<char>,
    pub width: u32,
    pub height: u32,
    pub ready: bool,
    pub loading: bool,
}

impl Browser {
    pub open spec fn view(&self) -> BrowserView {
        BrowserView {
            url: self.url@,
            title: self.title@,
            width: self.width,
            height: self.height,
            ready: self.ready,
            loading: self.loading,
        }
    }
}

/// A browser as it stands right after creation: blank, 1024 by 768, ready.
pub open spec fn fresh_browser() -> BrowserView {
    BrowserView {
        url: Seq::empty(),
        title: "Oracle Steam Browser"@,
        width: 1024,
        height: 768,
        ready: true,
        loading: false,
    }
}

pub struct BrowserState {
    pub browsers: HashMap<u32, Browser>,
    pub next_handle: u32,
}

impl BrowserState {
    pub open spec fn wf(&self) -> bool {
        &&& forall|h: u32| #[trigger]
            self.browsers@.contains_key(h) ==> self.browsers@[h].handle == h && h < self.next_handle
        &&& self.next_handle >= 1
    }

    pub open spec fn view(&self) -> Map<u32, BrowserView> {
        self.browsers@.map_values(|b: Browser| b@)
    }

    pub fn new() -> (s: Self)
        ensures
            s.wf(),
            s@ == Map::<u32, BrowserView>::empty(),
            s.next_handle == 1,
    {
        let s = BrowserState { browsers: HashMap::new(), next_handle: 1 };
        assert(s@ =~= Map::<u32, BrowserView>::empty());
        s
    }

    /// Closes every browser.
    pub fn shutdown(&mut self) -> (ok: bool)
        requires
            old(self).wf(),
        ensures
            ok,
            final(self).wf(),
            final(self)@ == Map::<u32, BrowserView>::empty(),
            final(self).next_handle == old(self).next_handle,
    {
        self.browsers.clear();
        assert(self@ =~= Map::<u32, BrowserView>::empty());
        true
    }

    /// Opens a browser under the next handle; the answer is the call handle 1.
    /// Draws the next browser handle from the counter.
    pub fn next_browser_handle(&mut self) -> (h: u32)
        requires
            old(self).next_handle < u32::MAX,
        ensures
            h == old(self).next_handle,
            final(self).next_handle == h + 1,
            final(self).browsers == old(self).browsers,
    {
        let h = self.next_handle;
        self.next_handle = h + 1;
        h
    }

    pub fn create_browser(&mut self) -> (call: u64)
        requires
            old(self).wf(),
            old(self).next_handle < u32::MAX,
        ensures
            call == 1,
            final(self).wf(),
            !old(self)@.contains_key(old(self).next_handle),
            final(self).next_handle == old(self).next_handle + 1,
            final(self)@ == old(self)@.insert(old(self).next_handle, fresh_browser()),
    {
        let h = self.next_browser_handle();
        let b = Browser {
            handle: h,
            url: String::new(),
            title: String::from_str("Oracle Steam Browser"),
            width: 1024,
            height: 768,
            ready: true,
            loading: false,
        };
        let ghost before = old(self)@;
        assert(b@ == fresh_browser());
        self.browsers.insert(h, b);
        assert(self@ =~= before.insert(h, fresh_browser()));
        1
    }

    pub fn remove_browser(&mut self, h: u32)
        requires
            old(self).wf(),
        ensures
            final(self).wf(),
            final(self)@ == old(self)@.remove(h),
            final(self).next_handle == old(self).next_handle,
    {
        let ghost before = self@;
        self.browsers.remove(&h);
        assert(self@ =~= before.remove(h));
    }

    /// Changes the URL, the size and the loading flag of browser `h`, if it exists.
    fn update(&mut self, h: u32, url: Option<&str>, size: Option<(u32, u32)>, loading: bool)
        requires
            old(self).wf(),
        ensures
            final(self).wf(),
            final(self).next_handle == old(self).next_handle,
            old(self)@.contains_key(h) ==> final(self)@ == old(self)@.insert(
                h,
                BrowserView {
                    url: match url {
                        Some(u) => u@,
                        None => old(self)@[h].url,
                    },
                    width: match size {
                        Some(s) => s.0,
                        None => old(self)@[h].width,
                    },
                    height: match size {
                        Some(s) => s.1,
                        None => old(self)@[h].height,
                    },
                    loading,
                    ..old(self)@[h]
                },
            ),
            !old(self)@.contains_key(h) ==> final(self)@ == old(self)@,
    {
        let ghost before = self@;
        match self.browsers.remove(&h) {
            Some(mut b) => {
                match url {
                    Some(u) => b.url = String::from_str(u),
                    None => {},
                }
                match size {
                    Some(s) => {
                        b.width = s.0;
                        b.height = s.1;
                    },
                    None => {},
                }
                b.loading = loading;
                let ghost v = b@;
                self.browsers.insert(h, b);
                assert(self@ =~= before.insert(h, v));
            },
            None => {
                assert(self@ =~= before);
            },
        }
    }

    /// Starts loading `url` in browser `h`.
    pub fn load_url(&mut self, h: u32, url: &str)
        requires
            old(self).wf(),
        ensures
            final(self).wf(),
            final(self).next_handle == old(self).next_handle,
            old(self)@.contains_key(h) ==> final(self)@ == old(self)@.insert(
                h,
                BrowserView { url: url@, loading: true, ..old(self)@[h] },
            ),
            !old(self)@.contains_key(h) ==> final(self)@ == old(self)@,
    {
        self.update(h, Some(url), None, true);
    }

    pub fn set_size(&mut self, h: u32, width: u32, height: u32)
        requires
            old(self).wf(),
        ensures
            final(self).wf(),
            final(self).next_handle == old(self).next_handle,
            old(self)@.contains_key(h) ==> final(self)@ == old(self)@.insert(
                h,
                BrowserView { width, height, ..old(self)@[h] },
            ),
            !old(self)@.contains_key(h) ==> final(self)@ == old(self)@,
    {
        if self.browsers.contains_key(&h) {
            let loading = self.browsers.get(&h).unwrap().loading;
            self.update(h, None, Some((width, height)), loading);
        }
    }

    pub fn stop_load(&mut self, h: u32)
        requires
            old(self).wf(),
        ensures
            final(self).wf(),
            final(self).next_handle == old(self).next_handle,
            old(self)@.contains_key(h) ==> final(self)@ == old(self)@.insert(
                h,
                BrowserView { loading: false, ..old(self)@[h] },
            ),
            !old(self)@.contains_key(h) ==> final(self)@ == old(self)@,
    {
        self.update(h, None, None, false);
    }

    /// Loads the current URL of browser `h` again.
    pub fn reload(&mut self, h: u32)
        requires
            old(self).wf(),
        ensures
            final(self).wf(),
            final(self).next_handle == old(self).next_handle,
            old(self)@.contains_key(h) ==> final(self)@ == old(self)@.insert(
                h,
                BrowserView { loading: true, ..old(self)@[h] },
            ),
            !old(self)@.contains_key(h) ==> final(self)@ == old(self)@,
    {
        self.update(h, None, None, true);
    }
}

} // verus!
