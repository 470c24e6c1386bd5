//! The emulated ISteamMusic and ISteamMusicRemote interfaces (the volume, a
//! floating-point value, is kept by the caller).
use vstd::prelude::*;
use vstd::string::*;

verus! {

#[derive(Clone, Copy, PartialEq, Eq, Structural)]
pub enum PlaybackStatus {
    Undefined,
    Playing,
    Paused,
    Idle,
}

/// The number a playback status is reported as.
pub open spec fn status_code_of(s: PlaybackStatus) -> i32 {
    match s {
        PlaybackStatus::Undefined => 0,
        PlaybackStatus::Playing => 1,
        PlaybackStatus::Paused => 2,
        PlaybackStatus::Idle => 3,
    }
}

/// The playback status a number stands for; unknown numbers mean undefined.
pub open spec fn status_of_code(code: i32) -> PlaybackStatus {
    if code == 1 {
        PlaybackStatus::Playing
    } else if code == 2 {
        PlaybackStatus::Paused
    } else if code == 3 {
        PlaybackStatus::Idle
    } else {
        PlaybackStatus::Undefined
    }
}

pub fn status_code(s: PlaybackStatus) -> (c: i32)
    ensures
        c == status_code_of(s),
{
    match s {
        PlaybackStatus::Undefined => 0,
        PlaybackStatus::Playing => 1,
        PlaybackStatus::Paused => 2,
        PlaybackStatus::Idle => 3,
    }
}

pub fn status_from_code(code: i32) -> (s: PlaybackStatus)
    ensures
        s == status_of_code(code),
{
    match code {
        1 => PlaybackStatus::Playing,
        2 => PlaybackStatus::Paused,
        3 => PlaybackStatus::Idle,
        _ => PlaybackStatus::Undefined,
    }
}

pub struct PlaylistEntry {
    pub id: i32,
    pub title: String,
    pub artist: String,
    pub album: String,
    pub duration: i32,
}

pub struct MusicState {
    pub enabled: bool,
    pub playing: bool,
    pub playback_status: PlaybackStatus,
    pub current_entry: i32,
    pub playlist: Vec<PlaylistEntry>,
}

impl MusicState {
    /// The playlist's length fits a C int.
    pub open spec fn wf(&self) -> bool {
        self.playlist@.len() < i32::MAX
    }

    /// Enabled, idle, at the first entry of an empty playlist.
    pub fn new() -> (s: Self)
        ensures
            s.wf(),
            s.enabled,
            !s.playing,
            s.playback_status == PlaybackStatus::Idle,
            s.current_entry == 0,
            s.playlist@.len() == 0,
    {
        MusicState {
            enabled: true,
            playing: false,
            playback_status: PlaybackStatus::Idle,
            current_entry: 0,
            playlist: Vec::new(),
        }
    }

    pub fn play(&mut self)
        ensures
            final(self).playing,
            final(self).playback_status == PlaybackStatus::Playing,
            final(self).current_entry == old(self).current_entry,
            final(self).enabled == old(self).enabled,
            final(self).playlist == old(self).playlist,
    {
        self.playing = true;
        self.playback_status = PlaybackStatus::Playing;
    }

    pub fn pause(&mut self)
        ensures
            !final(self).playing,
            final(self).playback_status == PlaybackStatus::Paused,
            final(self).current_entry == old(self).current_entry,
            final(self).enabled == old(self).enabled,
            final(self).playlist == old(self).playlist,
    {
        self.playing = false;
        self.playback_status = PlaybackStatus::Paused;
    }

    /// Steps back one entry, unless at the first.
    pub fn play_previous(&mut self)
        ensures
            final(self).current_entry == (if old(self).current_entry > 0 {
                old(self).current_entry - 1
            } else {
                old(self).current_entry as int
            }),
            final(self).playing == old(self).playing,
            final(self).playback_status == old(self).playback_status,
            final(self).playlist == old(self).playlist,
    {
        if self.current_entry > 0 {
            self.current_entry = self.current_entry - 1;
        }
    }

    /// Steps forward one entry, unless at the last.
    pub fn play_next(&mut self)
        requires
            old(self).wf(),
        ensures
            final(self).wf(),
            final(self).current_entry == (if old(self).current_entry < old(self).playlist@.len() - 1 {
                old(self).current_entry + 1
            } else {
                old(self).current_entry as int
            }),
            final(self).playing == old(self).playing,
            final(self).playback_status == old(self).playback_status,
            final(self).playlist == old(self).playlist,
    {
        let len = self.playlist.len() as i32;
        if self.current_entry < len - 1 {
            self.current_entry = self.current_entry + 1;
        }
    }

    /// Sets the playback status reported by a remote.
    pub fn update_playback_status(&mut self, code: i32) -> (ok: bool)
        ensures
            ok,
            final(self).playback_status == status_of_code(code),
            final(self).playing == old(self).playing,
            final(self).current_entry == old(self).current_entry,
            final(self).playlist == old(self).playlist,
    {
        self.playback_status = status_from_code(code);
        true
    }
}

pub struct MusicRemoteState {
    pub registered: bool,
    pub is_current_remote: bool,
    pub display_name: String,
    pub playlist_changed: bool,
    pub current_entry_changed: bool,
}

impl MusicRemoteState {
    /// Unregistered, named "Oracle Steam Music", nothing pending.
    pub fn new() -> (s: Self)
        ensures
            !s.registered,
            !s.is_current_remote,
            s.display_name@ == "Oracle Steam Music"@,
            !s.playlist_changed,
            !s.current_entry_changed,
    {
        MusicRemoteState {
            registered: false,
            is_current_remote: false,
            display_name: String::from_str("Oracle Steam Music"),
            playlist_changed: false,
            current_entry_changed: false,
        }
    }

    /// Registers a remote under `name`; it becomes the current remote.
    pub fn register(&mut self, name: &str) -> (ok: bool)
        ensures
            ok,
            final(self).registered,
            final(self).is_current_remote,
            final(self).display_name@ == name@,
            final(self).playlist_changed == old(self).playlist_changed,
            final(self).current_entry_changed == old(self).current_entry_changed,
    {
        self.registered = true;
        self.is_current_remote = true;
        self.display_name = String::from_str(name);
        true
    }

    pub fn deregister(&mut self) -> (ok: bool)
        ensures
            ok,
            !final(self).registered,
            !final(self).is_current_remote,
            final(self).display_name == old(self).display_name,
            final(self).playlist_changed == old(self).playlist_changed,
            final(self).current_entry_changed == old(self).current_entry_changed,
    {
        self.registered = false;
        self.is_current_remote = false;
        true
    }

    pub fn set_display_name(&mut self, name: &str) -> (ok: bool)
        ensures
            ok,
            final(self).display_name@ == name@,
            final(self).registered == old(self).registered,
            final(self).is_current_remote == old(self).is_current_remote,
            final(self).playlist_changed == old(self).playlist_changed,
            final(self).current_entry_changed == old(self).current_entry_changed,
    {
        self.display_name = String::from_str(name);
        true
    }
}

/// The status numbers: 1 playing, 2 paused, 3 idle, 0 undefined; any other
/// number reads as undefined, and every status reads back from its number.
pub proof fn lemma_status_codes(code: i32, s: PlaybackStatus)
    ensures
        (status_of_code(code) == PlaybackStatus::Playing) <==> code == 1,
        (status_of_code(code) == PlaybackStatus::Paused) <==> code == 2,
        (status_of_code(code) == PlaybackStatus::Idle) <==> code == 3,
        (status_of_code(code) == PlaybackStatus::Undefined) <==> (code < 1 || code > 3),
        (status_code_of(s) == 1) <==> s == PlaybackStatus::Playing,
        (status_code_of(s) == 2) <==> s == PlaybackStatus::Paused,
        (status_code_of(s) == 3) <==> s == PlaybackStatus::Idle,
        (status_code_of(s) == 0) <==> s == PlaybackStatus::Undefined,
        status_of_code(status_code_of(s)) == s,
{
}

} // verus!

