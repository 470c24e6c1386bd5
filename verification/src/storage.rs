//! The emulated ISteamRemoteStorage cloud: files kept in memory by name,
//! against a quota. Mirroring files to disk, and reading those that are only
//! on disk, is the caller's part; the functions here say when that is
//! needed.
use crate::cbuf::{append_bytes, c_string_in_buffer, copy_c_string, copy_prefix, truncated, utf8_bytes};
use crate::strmap::StrMap;
use vstd::prelude::*;
use vstd::string::*;

verus! {

/// The cloud quota: 200 MiB.
pub const CLOUD_QUOTA_BYTES: u64 = 209715200;

/// The size of the buffer that file names are returned in.
pub const FILE_NAME_BUFFER: usize = 260;

/// The cloud as plain values: files by name, the quota and the bytes counted
/// against it.
pub struct CloudView {
    pub files: Map<Seq<char>, Seq<u8>>,
    pub total: u64,
    pub used: u64,
}

/// Whether a write of `size` bytes is accepted: at least one byte, within
/// the quota left.
pub open spec fn write_accepted(c: CloudView, size: nat) -> bool {
    size >= 1 && c.used + size <= c.total
}

/// The cloud after an accepted write: the file holds `data`, and its size is
/// counted against the quota (again, when it replaces a file).
pub open spec fn after_write(c: CloudView, name: Seq<char>, data: Seq<u8>) -> CloudView {
    CloudView { files: c.files.insert(name, data), used: (c.used + data.len()) as u64, ..c }
}

/// What a read of at most `to_read` bytes of `name` gives from memory:
/// nothing when fewer than one byte is asked for, `None` when the file is not
/// in memory (the caller then looks on disk).
pub open spec fn read_result(c: CloudView, name: Seq<char>, to_read: i32) -> Option<Seq<u8>> {
    if to_read < 1 {
        Some(Seq::empty())
    } else if c.files.contains_key(name) {
        Some(truncated(c.files[name], to_read as nat))
    } else {
        None
    }
}

/// The cloud after a delete: the file is gone and its size, if it was in
/// memory, no longer counts (never below zero).
pub open spec fn after_delete(c: CloudView, name: Seq<char>) -> CloudView {
    if c.files.contains_key(name) {
        CloudView {
            files: c.files.remove(name),
            used: if c.used >= c.files[name].len() {
                (c.used - c.files[name].len()) as u64
            } else {
                0
            },
            ..c
        }
    } else {
        c
    }
}

/// The bytes still free.
pub open spec fn available(c: CloudView) -> u64 {
    if c.used <= c.total {
        (c.total - c.used) as u64
    } else {
        0
    }
}

pub struct CloudStorage {
    pub files: StrMap<Vec<u8>>,
    pub total: u64,
    pub used: u64,
}

impl CloudStorage {
    pub open spec fn wf(&self) -> bool {
        self.files.wf()
    }

    pub open spec fn view(&self) -> CloudView {
        CloudView {
            files: self.files@.map_values(|v: Vec<u8>| v@),
            total: self.total,
            used: self.used,
        }
    }

    /// An empty cloud with the full quota free.
    pub fn new() -> (s: Self)
        ensures
            s.wf(),
            s@.files == Map::<Seq<char>, Seq<u8>>::empty(),
            s@.total == CLOUD_QUOTA_BYTES,
            s@.used == 0,
    {
        let s = CloudStorage { files: StrMap::new(), total: CLOUD_QUOTA_BYTES, used: 0 };
        assert(s@.files =~= Map::<Seq<char>, Seq<u8>>::empty());
        s
    }

    /// Writes `data` (the caller's `data_size` bytes, so at most `i32::MAX`
    /// of them) to file `name`; false, changing nothing, when the write is
    /// empty or would exceed the quota. The caller mirrors an accepted write
    /// to disk.
    pub fn file_write(&mut self, name: &str, data: &[u8]) -> (ok: bool)
        requires
            old(self).wf(),
            data@.len() <= i32::MAX,
        ensures
            final(self).wf(),
            ok == write_accepted(old(self)@, data@.len()),
            ok ==> final(self)@ == after_write(old(self)@, name@, data@),
            !ok ==> final(self)@ == old(self)@,
    {
        let size = data.len() as u64;
        if size < 1 {
            return false;
        }
        if self.used > self.total || size > self.total - self.used {
            return false;
        }
        let mut stored: Vec<u8> = Vec::new();
        append_bytes(&mut stored, data);
        assert(stored@ =~= data@);
        let ghost before = self@;
        self.files.insert(String::from_str(name), stored);
        self.used = self.used + size;
        assert(self@.files =~= before.files.insert(name@, data@));
        true
    }

    /// Reads at most `to_read` bytes of `name` from memory: see
    /// `read_result`.
    pub fn file_read(&self, name: &str, to_read: i32) -> (r: Option<Vec<u8>>)
        requires
            self.wf(),
        ensures
            match read_result(self@, name@, to_read) {
                Some(b) => r matches Some(v) && v@ == b,
                None => r is None,
            },
    {
        if to_read < 1 {
            let v: Vec<u8> = Vec::new();
            assert(v@ =~= Seq::<u8>::empty());
            return Some(v);
        }
        let key = String::from_str(name);
        match self.files.get(&key) {
            Some(data) => Some(copy_prefix(data.as_slice(), to_read as usize)),
            None => None,
        }
    }

    /// Keeps in memory a file that the caller read from disk, and returns at
    /// most `to_read` of its bytes. The quota is not charged for it.
    pub fn cache_disk_file(&mut self, name: &str, data: Vec<u8>, to_read: i32) -> (r: Vec<u8>)
        requires
            old(self).wf(),
            to_read >= 1,
        ensures
            final(self).wf(),
            r@ == truncated(data@, to_read as nat),
            final(self)@ == (CloudView { files: old(self)@.files.insert(name@, data@), ..old(self)@ }),
    {
        let out = copy_prefix(data.as_slice(), to_read as usize);
        let ghost before = self@;
        let ghost d = data@;
        self.files.insert(String::from_str(name), data);
        assert(self@.files =~= before.files.insert(name@, d));
        out
    }

    /// Drops file `name` from memory without touching the quota; always true.
    pub fn file_forget(&mut self, name: &str) -> (ok: bool)
        requires
            old(self).wf(),
        ensures
            final(self).wf(),
            ok,
            final(self)@ == (CloudView { files: old(self)@.files.remove(name@), ..old(self)@ }),
    {
        let ghost before = self@;
        let _ = self.files.remove(&String::from_str(name));
        assert(self@.files =~= before.files.remove(name@));
        true
    }

    /// Deletes file `name` from memory, giving back its quota; always true.
    /// The caller removes it from disk too.
    pub fn file_delete(&mut self, name: &str) -> (ok: bool)
        requires
            old(self).wf(),
        ensures
            final(self).wf(),
            ok,
            final(self)@ == after_delete(old(self)@, name@),
    {
        let ghost before = self@;
        match self.files.remove(&String::from_str(name)) {
            Some(data) => {
                self.used = self.used.saturating_sub(data.len() as u64);
                assert(self@.files =~= before.files.remove(name@));
            },
            None => {
                assert(self@.files =~= before.files);
            },
        }
        true
    }

    /// Whether file `name` is in memory (when not, the caller looks on disk).
    pub fn file_exists(&self, name: &str) -> (r: bool)
        requires
            self.wf(),
        ensures
            r == self@.files.contains_key(name@),
    {
        self.files.contains_key(&String::from_str(name))
    }

    /// The size of file `name` when it is in memory.
    pub fn file_size(&self, name: &str) -> (r: Option<i32>)
        requires
            self.wf(),
        ensures
            r is Some <==> self@.files.contains_key(name@),
            r matches Some(n) ==> n == self@.files[name@].len() as i32,
    {
        match self.files.get(&String::from_str(name)) {
            Some(data) => Some(data.len() as i32),
            None => None,
        }
    }

    /// The number of files in memory.
    pub fn file_count(&self) -> (n: i32)
        requires
            self.wf(),
        ensures
            n == self@.files.dom().len() as i32,
    {
        assert(self@.files.dom() =~= self.files@.dom());
        self.files.len() as i32
    }

    /// The name (in a buffer of `FILE_NAME_BUFFER` bytes) and size of the
    /// file at position `index` of the list the cloud keeps its files in;
    /// `None` past the last file.
    pub fn file_name_and_size(&self, index: i32) -> (r: Option<(Vec<u8>, i32)>)
        requires
            self.wf(),
        ensures
            r is Some <==> (index as usize) < self@.files.dom().len(),
            r matches Some((b, n)) ==> exists|name: Seq<char>|
                #![trigger self@.files[name]]
                self@.files.contains_key(name) && b@ == c_string_in_buffer(
                    utf8_bytes(name),
                    FILE_NAME_BUFFER as nat,
                ) && n == self@.files[name].len() as i32,
            r matches Some((b, n)) ==> b@ == c_string_in_buffer(
                utf8_bytes(self.files.entries@[index as usize as int].0@),
                FILE_NAME_BUFFER as nat,
            ) && n == self.files.entries@[index as usize as int].1@.len() as i32,
    {
        assert(self@.files.dom() =~= self.files@.dom());
        match self.files.key_at(index as usize) {
            Some(key) => {
                let data = self.files.get(key);
                match data {
                    Some(d) => {
                        let size = d.len() as i32;
                        let name = copy_c_string(key.as_str().as_bytes(), FILE_NAME_BUFFER);
                        assert(self@.files[key@] == d@);
                        proof {
                            crate::strmap::lemma_map_of_len(self.files.entries@);
                            crate::strmap::lemma_map_of_value(self.files.entries@, index as usize as int);
                        }
                        Some((name, size))
                    },
                    None => None,
                }
            },
            None => None,
        }
    }

    /// The quota and the bytes still free.
    pub fn get_quota(&self) -> (r: (u64, u64))
        ensures
            r == (self@.total, available(self@)),
    {
        (self.total, self.total.saturating_sub(self.used))
    }
}

/// Reading a file back right after an accepted write gives the bytes that
/// were written, up to the amount asked for.
pub proof fn lemma_read_after_write(c: CloudView, name: Seq<char>, data: Seq<u8>, to_read: i32)
    requires
        write_accepted(c, data.len()),
        to_read >= 1,
    ensures
        read_result(after_write(c, name, data), name, to_read) == Some(truncated(data, to_read as nat)),
{
}

/// Deleting a file right after writing it gives the quota back as it was.
pub proof fn lemma_delete_after_write_restores_quota(c: CloudView, name: Seq<char>, data: Seq<u8>)
    requires
        write_accepted(c, data.len()),
    ensures
        after_delete(after_write(c, name, data), name).used == c.used,
        !after_delete(after_write(c, name, data), name).files.contains_key(name),
{
}

/// An accepted write never takes the bytes counted past the quota.
pub proof fn lemma_write_keeps_quota(c: CloudView, name: Seq<char>, data: Seq<u8>)
    requires
        write_accepted(c, data.len()),
    ensures
        after_write(c, name, data).used <= after_write(c, name, data).total,
        available(after_write(c, name, data)) == available(c) - data.len(),
{
}

/// An accepted write of `name` leaves every other file as it was: it is there
/// exactly when it was before, with the same bytes, and reads back the same.
/// The written file holds the new bytes, and the number of files grows by one
/// only when `name` was new.
pub proof fn lemma_write_keeps_other_files(c: CloudView, name: Seq<char>, data: Seq<u8>, other: Seq<char>, to_read: i32)
    requires
        c.files.dom().finite(),
        other != name,
    ensures
        after_write(c, name, data).files.contains_key(name),
        after_write(c, name, data).files[name] == data,
        after_write(c, name, data).files.contains_key(other) == c.files.contains_key(other),
        c.files.contains_key(other) ==> after_write(c, name, data).files[other] == c.files[other],
        read_result(after_write(c, name, data), other, to_read) == read_result(c, other, to_read),
        after_write(c, name, data).files.dom().len() == c.files.dom().len() + (if c.files.contains_key(name) {
            0int
        } else {
            1int
        }),
{
    if c.files.contains_key(name) {
        assert(after_write(c, name, data).files.dom() =~= c.files.dom());
    } else {
        assert(after_write(c, name, data).files.dom() =~= c.files.dom().insert(name));
    }
}

/// Deleting `name` leaves every other file as it was.
pub proof fn lemma_delete_keeps_other_files(c: CloudView, name: Seq<char>, other: Seq<char>)
    requires
        other != name,
    ensures
        !after_delete(c, name).files.contains_key(name),
        after_delete(c, name).files.contains_key(other) == c.files.contains_key(other),
        c.files.contains_key(other) ==> after_delete(c, name).files[other] == c.files[other],
{
}

} // verus!

