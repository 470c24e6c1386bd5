//! The emulated ISteamUGC (Workshop) interface: queries and item updates
//! under handles drawn from one 64-bit counter, and the list of subscribed
//! items.
use crate::cbuf::{append_bytes, c_string_in_buffer, copy_c_string, decimal, decimal_bytes, utf8_bytes};
use std::collections::HashMap;
use vstd::prelude::*;
use vstd::string::*;

verus! {

broadcast use vstd::std_specs::hash::group_hash_axioms;

/// A Workshop item as a query returns it.
pub struct UgcItem {
    pub published_file_id: u64,
    pub title: String,
    pub description: String,
    pub owner: u64,
    pub time_created: u32,
    pub time_updated: u32,
    pub visibility: i32,
    pub tags: Vec<String>,
    pub file_size: u64,
    pub preview_file_size: u64,
    pub url: String,
    pub votes_up: u32,
    pub votes_down: u32,
}

pub struct UgcQuery {
    pub handle: u64,
    pub results: Vec<UgcItem>,
    pub query_type: i32,
}

/// The changes gathered for one item between `StartItemUpdate` and
/// `SubmitItemUpdate`.
pub struct UgcUpdate {
    pub handle: u64,
    pub file_id: u64,
    pub title: Option<String>,
    pub description: Option<String>,
    pub preview_file: Option<String>,
    pub content_file: Option<String>,
    pub tags: Vec<String>,
}

pub struct UgcUpdateView {
    pub file_id: u64,
    pub title: Option<Seq<char>>,
    pub description: Option<Seq<char>>,
    pub preview_file: Option<Seq<char>>,
    pub content_file: Option<Seq<char>>,
}

pub open spec fn text_of(s: Option<String>) -> Option<Seq<char>> {
    match s {
        Some(t) => Some(t@),
        None => None,
    }
}

impl UgcUpdate {
    pub open spec fn view(&self) -> UgcUpdateView {
        UgcUpdateView {
            file_id: self.file_id,
            title: text_of(self.title),
            description: text_of(self.description),
            preview_file: text_of(self.preview_file),
            content_file: text_of(self.content_file),
        }
    }
}

/// An update just started: nothing set yet.
pub open spec fn fresh_update(file_id: u64) -> UgcUpdateView {
    UgcUpdateView {
        file_id,
        title: None,
        description: None,
        preview_file: None,
        content_file: None,
    }
}

/// `k_EItemStateSubscribed | k_EItemStateInstalled`
pub const ITEM_STATE_SUBSCRIBED_INSTALLED: u32 = 5;

/// The size on disk reported for an installed item: 1 MiB.
pub const INSTALLED_SIZE: u64 = 1048576;

/// The part of `SteamUGCDetails_t` that a query result fills in.
pub struct UgcResultDetails {
    pub published_file_id: u64,
    pub result: i32,
    pub file_type: i32,
    pub creator_app_id: u32,
    pub consumer_app_id: u32,
    /// The title as written into its 129-byte field.
    pub title: Vec<u8>,
    /// The description as written into its 8000-byte field.
    pub description: Vec<u8>,
    pub steam_id_owner: u64,
    pub time_created: u32,
    pub time_updated: u32,
    pub visibility: u32,
    pub banned: bool,
    pub file_size: u64,
    pub preview_file_size: u64,
    pub votes_up: u32,
    pub votes_down: u32,
}

/// What `GetItemInstallInfo` reports of a subscribed item.
pub struct InstallInfo {
    pub size_on_disk: u64,
    /// The folder as written into the caller's buffer, when one was given.
    pub folder: Option<Vec<u8>>,
    pub timestamp: u32,
}

/// `workshop/content/<id>`
pub open spec fn install_folder(id: u64) -> Seq<u8> {
    seq![119u8, 111, 114, 107, 115, 104, 111, 112, 47, 99, 111, 110, 116, 101, 110, 116, 47]
        + decimal(id as nat)
}

/// The state reported for item `id`: subscribed and installed, or none.
pub open spec fn item_state_of(subscribed: Seq<u64>, id: u64) -> u32 {
    if subscribed.contains(id) {
        ITEM_STATE_SUBSCRIBED_INSTALLED
    } else {
        0
    }
}

pub struct UgcState {
    pub queries: HashMap<u64, UgcQuery>,
    pub updates: HashMap<u64, UgcUpdate>,
    pub subscribed: Vec<u64>,
    pub next_handle: u64,
}

impl UgcState {
    pub open spec fn wf(&self) -> bool {
        &&& forall|h: u64| #[trigger]
            self.queries@.contains_key(h) ==> self.queries@[h].handle == h && h < self.next_handle
        &&& forall|h: u64| #[trigger]
            self.updates@.contains_key(h) ==> self.updates@[h].handle == h && h < self.next_handle
        &&& self.next_handle >= 1
    }

    /// Queries by handle: their type and number of results.
    pub open spec fn queries_view(&self) -> Map<u64, (i32, nat)> {
        self.queries@.map_values(|q: UgcQuery| (q.query_type, q.results@.len()))
    }

    pub open spec fn updates_view(&self) -> Map<u64, UgcUpdateView> {
        self.updates@.map_values(|u: UgcUpdate| u@)
    }

    pub fn new() -> (s: Self)
        ensures
            s.wf(),
            s.queries_view() == Map::<u64, (i32, nat)>::empty(),
            s.updates_view() == Map::<u64, UgcUpdateView>::empty(),
            s.subscribed@ == Seq::<u64>::empty(),
            s.next_handle == 1,
    {
        let s = UgcState {
            queries: HashMap::new(),
            updates: HashMap::new(),
            subscribed: Vec::new(),
            next_handle: 1,
        };
        assert(s.queries_view() =~= Map::<u64, (i32, nat)>::empty());
        assert(s.updates_view() =~= Map::<u64, UgcUpdateView>::empty());
        s
    }

    /// Draws the next handle from the counter.
    pub fn next_handle(&mut self) -> (h: u64)
        requires
            old(self).next_handle < u64::MAX,
        ensures
            h == old(self).next_handle,
            final(self).next_handle == h + 1,
            final(self).queries == old(self).queries,
            final(self).updates == old(self).updates,
            final(self).subscribed == old(self).subscribed,
    {
        let h = self.next_handle;
        self.next_handle = h + 1;
        h
    }

    /// Creates a query of type `query_type`, with no results, under a fresh
    /// handle (the user, all-items and details requests differ only in the
    /// type they record).
    pub fn create_query(&mut self, query_type: i32) -> (h: u64)
        requires
            old(self).wf(),
            old(self).next_handle < u64::MAX,
        ensures
            final(self).wf(),
            h == old(self).next_handle,
            !old(self).queries@.contains_key(h) && !old(self).updates@.contains_key(h),
            final(self).next_handle == h + 1,
            final(self).queries_view() == old(self).queries_view().insert(h, (query_type, 0nat)),
            final(self).updates_view() == old(self).updates_view(),
            final(self).subscribed == old(self).subscribed,
    {
        let h = self.next_handle();
        let q = UgcQuery { handle: h, results: Vec::new(), query_type };
        self.queries.insert(h, q);
        assert(self.queries_view() =~= old(self).queries_view().insert(h, (query_type, 0nat)));
        assert(self.updates_view() =~= old(self).updates_view());
        h
    }

    /// The details of result `index` of query `handle`, or `None` (false)
    /// when there is no such query or result.
    pub fn get_query_result(&self, handle: u64, index: u32) -> (r: Option<UgcResultDetails>)
        ensures
            r is Some <==> self.queries@.contains_key(handle) && index
                < self.queries@[handle].results@.len(),
            r matches Some(d) ==> {
                let item = self.queries@[handle].results@[index as int];
                &&& d.published_file_id == item.published_file_id
                &&& d.result == 1
                &&& d.file_type == 0
                &&& d.creator_app_id == 0
                &&& d.consumer_app_id == 0
                &&& d.title@ == c_string_in_buffer(utf8_bytes(item.title@), 128)
                &&& d.description@ == c_string_in_buffer(utf8_bytes(item.description@), 8000)
                &&& d.steam_id_owner == item.owner
                &&& d.time_created == item.time_created
                &&& d.time_updated == item.time_updated
                &&& d.visibility == item.visibility as u32
                &&& !d.banned
                &&& d.file_size == item.file_size
                &&& d.preview_file_size == item.preview_file_size
                &&& d.votes_up == item.votes_up
                &&& d.votes_down == item.votes_down
            },
    {
        match self.queries.get(&handle) {
            Some(q) => {
                if (index as usize) < q.results.len() {
                    let item = &q.results[index as usize];
                    Some(
                        UgcResultDetails {
                            published_file_id: item.published_file_id,
                            result: 1,
                            file_type: 0,
                            creator_app_id: 0,
                            consumer_app_id: 0,
                            title: copy_c_string(item.title.as_str().as_bytes(), 128),
                            description: copy_c_string(item.description.as_str().as_bytes(), 8000),
                            steam_id_owner: item.owner,
                            time_created: item.time_created,
                            time_updated: item.time_updated,
                            visibility: item.visibility as u32,
                            banned: false,
                            file_size: item.file_size,
                            preview_file_size: item.preview_file_size,
                            votes_up: item.votes_up,
                            votes_down: item.votes_down,
                        },
                    )
                } else {
                    None
                }
            },
            None => None,
        }
    }

    /// The number of results of query `handle` (0 when there is none).
    pub fn get_query_num_results(&self, handle: u64) -> (n: u32)
        ensures
            n == if self.queries@.contains_key(handle) {
                self.queries@[handle].results@.len() as u32
            } else {
                0
            },
    {
        match self.queries.get(&handle) {
            Some(q) => q.results.len() as u32,
            None => 0,
        }
    }

    /// Releases query `handle`; false when there was none.
    pub fn release_query(&mut self, handle: u64) -> (removed: bool)
        requires
            old(self).wf(),
        ensures
            final(self).wf(),
            removed == old(self).queries@.contains_key(handle),
            final(self).queries_view() == old(self).queries_view().remove(handle),
            final(self).updates_view() == old(self).updates_view(),
            final(self).subscribed == old(self).subscribed,
            final(self).next_handle == old(self).next_handle,
    {
        let r = self.queries.remove(&handle);
        assert(self.queries_view() =~= old(self).queries_view().remove(handle));
        r.is_some()
    }

    /// Subscribes to item `id` (appended, even when already there); the call
    /// handle returned is 1.
    pub fn subscribe_item(&mut self, id: u64) -> (call: u64)
        ensures
            call == 1,
            final(self).subscribed@ == old(self).subscribed@.push(id),
            final(self).queries == old(self).queries,
            final(self).updates == old(self).updates,
            final(self).next_handle == old(self).next_handle,
    {
        self.subscribed.push(id);
        1
    }

    /// Unsubscribes from item `id`: every entry for it goes, the others keep
    /// their order; the call handle returned is 1.
    pub fn unsubscribe_item(&mut self, id: u64) -> (call: u64)
        ensures
            call == 1,
            final(self).subscribed@ == old(self).subscribed@.filter(|x: u64| x != id),
            final(self).queries == old(self).queries,
            final(self).updates == old(self).updates,
            final(self).next_handle == old(self).next_handle,
    {
        let ghost p = |x: u64| x != id;
        let mut kept: Vec<u64> = Vec::new();
        let mut i: usize = 0;
        while i < self.subscribed.len()
            invariant
                i <= self.subscribed@.len(),
                p == (|x: u64| x != id),
                kept@ == self.subscribed@.take(i as int).filter(p),
            decreases self.subscribed@.len() - i,
        {
            let x = self.subscribed[i];
            proof {
                reveal_with_fuel(Seq::<_>::filter, 1);
                assert(self.subscribed@.take(i + 1).drop_last() =~= self.subscribed@.take(i as int));
            }
            if x != id {
                kept.push(x);
            }
            i = i + 1;
        }
        assert(self.subscribed@.take(self.subscribed@.len() as int) =~= self.subscribed@);
        self.subscribed = kept;
        1
    }

    /// The number of subscriptions.
    pub fn num_subscribed_items(&self) -> (n: u32)
        ensures
            n == self.subscribed@.len() as u32,
    {
        self.subscribed.len() as u32
    }

    /// The first `max_entries` subscriptions (all of them when fewer).
    pub fn get_subscribed_items(&self, max_entries: u32) -> (ids: Vec<u64>)
        ensures
            ids@ == self.subscribed@.take(
                if self.subscribed@.len() < max_entries {
                    self.subscribed@.len() as int
                } else {
                    max_entries as int
                },
            ),
    {
        let count: usize = if self.subscribed.len() < max_entries as usize {
            self.subscribed.len()
        } else {
            max_entries as usize
        };
        let mut ids: Vec<u64> = Vec::new();
        let mut i: usize = 0;
        while i < count
            invariant
                i <= count,
                count <= self.subscribed@.len(),
                ids@ == self.subscribed@.take(i as int),
            decreases count - i,
        {
            ids.push(self.subscribed[i]);
            i = i + 1;
            assert(ids@ =~= self.subscribed@.take(i as int));
        }
        ids
    }

    /// Subscribed items count as installed: state 5, else 0.
    pub fn get_item_state(&self, id: u64) -> (state: u32)
        ensures
            state == item_state_of(self.subscribed@, id),
    {
        if contains_u64(self.subscribed.as_slice(), id) {
            ITEM_STATE_SUBSCRIBED_INSTALLED
        } else {
            0
        }
    }

    /// Where subscribed item `id` is installed: 1 MiB in
    /// `workshop/content/<id>`, written into a buffer of `folder_size` bytes
    /// (no folder when that is 0), timestamp 0. `None` (false) when the item
    /// is not subscribed.
    pub fn get_item_install_info(&self, id: u64, folder_size: u32) -> (r: Option<InstallInfo>)
        ensures
            r is Some <==> self.subscribed@.contains(id),
            r matches Some(info) ==> {
                &&& info.size_on_disk == INSTALLED_SIZE
                &&& info.timestamp == 0
                &&& folder_size == 0 ==> info.folder is None
                &&& folder_size > 0 ==> (info.folder matches Some(f) && f@ == c_string_in_buffer(
                    install_folder(id),
                    folder_size as nat,
                ))
            },
    {
        if !contains_u64(self.subscribed.as_slice(), id) {
            return None;
        }
        let folder = if folder_size > 0 {
            let mut path: Vec<u8> = vec![119u8, 111, 114, 107, 115, 104, 111, 112, 47, 99, 111, 110, 116, 101, 110, 116, 47];
            let digits = decimal_bytes(id);
            append_bytes(&mut path, digits.as_slice());
            assert(path@ =~= install_folder(id));
            Some(copy_c_string(path.as_slice(), folder_size as usize))
        } else {
            None
        };
        Some(InstallInfo { size_on_disk: INSTALLED_SIZE, folder, timestamp: 0 })
    }

    /// Starts an update of item `file_id` under a fresh handle.
    pub fn start_item_update(&mut self, file_id: u64) -> (h: u64)
        requires
            old(self).wf(),
            old(self).next_handle < u64::MAX,
        ensures
            final(self).wf(),
            h == old(self).next_handle,
            !old(self).queries@.contains_key(h) && !old(self).updates@.contains_key(h),
            final(self).next_handle == h + 1,
            final(self).updates_view() == old(self).updates_view().insert(h, fresh_update(file_id)),
            final(self).queries_view() == old(self).queries_view(),
            final(self).subscribed == old(self).subscribed,
    {
        let h = self.next_handle();
        let u = UgcUpdate {
            handle: h,
            file_id,
            title: None,
            description: None,
            preview_file: None,
            content_file: None,
            tags: Vec::new(),
        };
        self.updates.insert(h, u);
        assert(self.updates_view() =~= old(self).updates_view().insert(h, fresh_update(file_id)));
        assert(self.queries_view() =~= old(self).queries_view());
        h
    }

    /// Applies `change` to update `handle`; false when there is none.
    fn change_update(&mut self, handle: u64, field: UpdateField, text: &str) -> (ok: bool)
        requires
            old(self).wf(),
        ensures
            final(self).wf(),
            ok == old(self).updates@.contains_key(handle),
            ok ==> final(self).updates_view() == old(self).updates_view().insert(
                handle,
                with_field(old(self).updates_view()[handle], field, text@),
            ),
            !ok ==> final(self).updates_view() == old(self).updates_view(),
            final(self).queries_view() == old(self).queries_view(),
            final(self).subscribed == old(self).subscribed,
            final(self).next_handle == old(self).next_handle,
    {
        let ghost before = self.updates_view();
        match self.updates.remove(&handle) {
            Some(mut u) => {
                let t = String::from_str(text);
                match field {
                    UpdateField::Title => u.title = Some(t),
                    UpdateField::Description => u.description = Some(t),
                    UpdateField::Content => u.content_file = Some(t),
                    UpdateField::Preview => u.preview_file = Some(t),
                }
                let ghost v = u@;
                self.updates.insert(handle, u);
                assert(v == with_field(before[handle], field, text@));
                assert(self.updates_view() =~= before.insert(handle, v));
                assert(self.queries_view() =~= old(self).queries_view());
                true
            },
            None => {
                assert(self.updates_view() =~= before);
                assert(self.queries_view() =~= old(self).queries_view());
                false
            },
        }
    }

    /// Sets the title of update `handle`; false when there is none.
    pub fn set_item_title(&mut self, handle: u64, title: &str) -> (ok: bool)
        requires
            old(self).wf(),
        ensures
            final(self).wf(),
            ok == old(self).updates@.contains_key(handle),
            ok ==> final(self).updates_view() == old(self).updates_view().insert(
                handle,
                UgcUpdateView { title: Some(title@), ..old(self).updates_view()[handle] },
            ),
            !ok ==> final(self).updates_view() == old(self).updates_view(),
            final(self).queries_view() == old(self).queries_view(),
            final(self).subscribed == old(self).subscribed,
    {
        self.change_update(handle, UpdateField::Title, title)
    }

    /// Sets the description of update `handle`; false when there is none.
    pub fn set_item_description(&mut self, handle: u64, description: &str) -> (ok: bool)
        requires
            old(self).wf(),
        ensures
            final(self).wf(),
            ok == old(self).updates@.contains_key(handle),
            ok ==> final(self).updates_view() == old(self).updates_view().insert(
                handle,
                UgcUpdateView { description: Some(description@), ..old(self).updates_view()[handle] },
            ),
            !ok ==> final(self).updates_view() == old(self).updates_view(),
            final(self).queries_view() == old(self).queries_view(),
            final(self).subscribed == old(self).subscribed,
    {
        self.change_update(handle, UpdateField::Description, description)
    }

    /// Sets the content folder of update `handle`; false when there is none.
    pub fn set_item_content(&mut self, handle: u64, folder: &str) -> (ok: bool)
        requires
            old(self).wf(),
        ensures
            final(self).wf(),
            ok == old(self).updates@.contains_key(handle),
            ok ==> final(self).updates_view() == old(self).updates_view().insert(
                handle,
                UgcUpdateView { content_file: Some(folder@), ..old(self).updates_view()[handle] },
            ),
            !ok ==> final(self).updates_view() == old(self).updates_view(),
            final(self).queries_view() == old(self).queries_view(),
            final(self).subscribed == old(self).subscribed,
    {
        self.change_update(handle, UpdateField::Content, folder)
    }

    /// Sets the preview file of update `handle`; false when there is none.
    pub fn set_item_preview(&mut self, handle: u64, file: &str) -> (ok: bool)
        requires
            old(self).wf(),
        ensures
            final(self).wf(),
            ok == old(self).updates@.contains_key(handle),
            ok ==> final(self).updates_view() == old(self).updates_view().insert(
                handle,
                UgcUpdateView { preview_file: Some(file@), ..old(self).updates_view()[handle] },
            ),
            !ok ==> final(self).updates_view() == old(self).updates_view(),
            final(self).queries_view() == old(self).queries_view(),
            final(self).subscribed == old(self).subscribed,
    {
        self.change_update(handle, UpdateField::Preview, file)
    }
}

/// The text fields of an item update.
#[derive(Clone, Copy, PartialEq, Eq, Structural)]
pub enum UpdateField {
    Title,
    Description,
    Content,
    Preview,
}

pub open spec fn with_field(u: UgcUpdateView, field: UpdateField, text: Seq<char>) -> UgcUpdateView {
    match field {
        UpdateField::Title => UgcUpdateView { title: Some(text), ..u },
        UpdateField::Description => UgcUpdateView { description: Some(text), ..u },
        UpdateField::Content => UgcUpdateView { content_file: Some(text), ..u },
        UpdateField::Preview => UgcUpdateView { preview_file: Some(text), ..u },
    }
}

/// Whether `x` occurs in `v`.
fn contains_u64(v: &[u64], x: u64) -> (r: bool)
    ensures
        r == v@.contains(x),
{
    let mut i: usize = 0;
    while i < v.len()
        invariant
            i <= v@.len(),
            forall|j: int| 0 <= j < i ==> v@[j] != x,
        decreases v@.len() - i,
    {
        if v[i] == x {
            assert(v@[i as int] == x);
            return true;
        }
        i = i + 1;
    }
    false
}

/// Unsubscribing leaves no subscription to the item, and keeps every other.
pub proof fn lemma_unsubscribe_removes(subscribed: Seq<u64>, id: u64, other: u64)
    requires
        other != id,
    ensures
        !subscribed.filter(|x: u64| x != id).contains(id),
        subscribed.contains(other) ==> subscribed.filter(|x: u64| x != id).contains(other),
{
    broadcast use vstd::seq_lib::group_filter_ensures;
    let p = |x: u64| x != id;
    if subscribed.filter(p).contains(id) {
        let k = choose|k: int| 0 <= k < subscribed.filter(p).len() && subscribed.filter(p)[k] == id;
        assert(p(subscribed.filter(p)[k]));
    }
    if subscribed.contains(other) {
        let k = choose|k: int| 0 <= k < subscribed.len() && subscribed[k] == other;
        assert(p(subscribed[k]));
        subscribed.lemma_filter_contains(p, k);
    }
}

/// A subscribed item reads as installed; once unsubscribed, as nothing.
pub proof fn lemma_subscription_state(subscribed: Seq<u64>, id: u64)
    ensures
        item_state_of(subscribed.push(id), id) == ITEM_STATE_SUBSCRIBED_INSTALLED,
        item_state_of(subscribed.push(id).filter(|x: u64| x != id), id) == 0,
{
    assert(subscribed.push(id)[subscribed.len() as int] == id);
    lemma_unsubscribe_removes(subscribed.push(id), id, if id == 0 { 1 } else { 0 });
}

/// The install folder of item `id` is `workshop/content/` followed by the id
/// in base 10: the part after the prefix is a run of decimal digits, with no
/// leading zero, that reads back as the id.
pub proof fn lemma_install_folder_names_item(id: u64)
    ensures
        install_folder(id).len() > 17,
        install_folder(id).take(17) == seq![119u8, 111, 114, 107, 115, 104, 111, 112, 47, 99, 111, 110, 116, 101, 110, 116, 47],
        crate::cbuf::all_decimal_digits(install_folder(id).skip(17)),
        crate::cbuf::decimal_value(install_folder(id).skip(17)) == id,
        id > 0 ==> install_folder(id)[17] != 48u8,
{
    crate::cbuf::lemma_decimal_reads_back(id as nat);
    let prefix = seq![119u8, 111, 114, 107, 115, 104, 111, 112, 47, 99, 111, 110, 116, 101, 110, 116, 47];
    assert(install_folder(id).take(17) =~= prefix);
    assert(install_folder(id).skip(17) =~= decimal(id as nat));
}

} // verus!

