//! What the interface tables (ISteamApps, ISteamFriends, ISteamMatchmaking,
//! ISteamUtils) make of the answers of the managers behind them: the bytes
//! written into the caller's buffers, the counts returned, and the callbacks
//! posted. Each function takes the manager's answer as a plain value.
use crate::friends::FriendGameInfo_t;
use crate::cbuf::{c_string_in_buffer, copy_c_string, copy_prefix, truncated, utf8_bytes, min_nat};
use vstd::prelude::*;
use vstd::string::*;

verus! {

/// The first `max` items (all of them when fewer).
pub fn copy_first<T: Copy>(items: &[T], max: usize) -> (out: Vec<T>)
    ensures
        out@ == items@.take(min_nat(items@.len(), max as nat) as int),
{
    let n: usize = if items.len() < max {
        items.len()
    } else {
        max
    };
    let mut out: Vec<T> = Vec::new();
    let mut i: usize = 0;
    while i < n
        invariant
            i <= n,
            n <= items@.len(),
            n == min_nat(items@.len(), max as nat),
            out@ == items@.take(i as int),
        decreases n - i,
    {
        out.push(items[i]);
        i = i + 1;
        assert(out@ =~= items@.take(i as int));
    }
    out
}

/// A text written into a caller's buffer of `size` bytes when the manager
/// has one: `None` when there is no text or the buffer is empty.
pub fn text_into_buffer(text: Option<&str>, size: i32) -> (r: Option<Vec<u8>>)
    ensures
        r is Some <==> text is Some && size > 0,
        r matches Some(b) ==> b@ == c_string_in_buffer(utf8_bytes(text->0@), size as nat),
{
    if size <= 0 {
        return None;
    }
    match text {
        Some(t) => Some(copy_c_string(t.as_bytes(), size as usize)),
        None => None,
    }
}

// ---------------------------------------------------------------------------
// ISteamApps
// ---------------------------------------------------------------------------

/// A DLC as the apps manager describes it.
pub struct DlcData {
    pub app_id: u32,
    pub available: bool,
    pub name: String,
}

/// What `GetDLCDataByIndex` reports: the app ID, availability, and the name
/// as written into a buffer of `name_buffer_size` bytes (none for an empty
/// buffer). `None` (false) when the manager has no such DLC.
pub fn dlc_data_output(dlc: Option<&DlcData>, name_buffer_size: i32) -> (r: Option<(u32, bool, Option<Vec<u8>>)>)
    ensures
        r is Some <==> dlc is Some,
        r matches Some((id, avail, name)) ==> {
            let d = dlc->0;
            &&& id == d.app_id
            &&& avail == d.available
            &&& name_buffer_size > 0 ==> (name matches Some(b) && b@ == c_string_in_buffer(
                utf8_bytes(d.name@),
                name_buffer_size as nat,
            ))
            &&& name_buffer_size <= 0 ==> name is None
        },
{
    match dlc {
        Some(d) => {
            let name = if name_buffer_size > 0 {
                Some(copy_c_string(d.name.as_str().as_bytes(), name_buffer_size as usize))
            } else {
                None
            };
            Some((d.app_id, d.available, name))
        },
        None => None,
    }
}

/// A beta branch as the apps manager describes it.
pub struct BetaInfo {
    pub app_id: u32,
    pub flags: u32,
    pub build_id: String,
    pub description: String,
    pub password_required: bool,
}

/// What `GetBetaInfo` reports of a beta branch.
pub struct BetaInfoOutput {
    pub app_id: u32,
    pub flags: u32,
    pub build_id: Option<Vec<u8>>,
    pub description: Option<Vec<u8>>,
    pub password_required: bool,
}

/// What `GetBetaInfo` reports: the fields, with the build ID and the
/// description written into their buffers (none for an empty buffer).
/// `None` (false) when the manager has no such branch.
pub fn beta_info_output(beta: Option<&BetaInfo>, build_id_size: i32, description_size: i32) -> (r: Option<BetaInfoOutput>)
    ensures
        r is Some <==> beta is Some,
        r matches Some(o) ==> {
            let b = beta->0;
            &&& o.app_id == b.app_id
            &&& o.flags == b.flags
            &&& o.password_required == b.password_required
            &&& build_id_size > 0 ==> (o.build_id matches Some(v) && v@ == c_string_in_buffer(
                utf8_bytes(b.build_id@),
                build_id_size as nat,
            ))
            &&& build_id_size <= 0 ==> o.build_id is None
            &&& description_size > 0 ==> (o.description matches Some(v) && v@ == c_string_in_buffer(
                utf8_bytes(b.description@),
                description_size as nat,
            ))
            &&& description_size <= 0 ==> o.description is None
        },
{
    match beta {
        Some(b) => {
            let build_id = if build_id_size > 0 {
                Some(copy_c_string(b.build_id.as_str().as_bytes(), build_id_size as usize))
            } else {
                None
            };
            let description = if description_size > 0 {
                Some(copy_c_string(b.description.as_str().as_bytes(), description_size as usize))
            } else {
                None
            };
            Some(
                BetaInfoOutput {
                    app_id: b.app_id,
                    flags: b.flags,
                    build_id,
                    description,
                    password_required: b.password_required,
                },
            )
        },
        None => None,
    }
}

/// The number of betas `GetNumBetas` returns: available plus private.
pub fn total_betas(available: i32, private: i32) -> (n: i32)
    requires
        i32::MIN <= available + private <= i32::MAX,
    ensures
        n == available + private,
{
    available + private
}

/// What `GetInstalledDepots` writes for a buffer of `max_depots` entries,
/// whose count it returns.
pub fn installed_depots_output(depots: &[u32], max_depots: u32) -> (r: Vec<u32>)
    ensures
        r@ == depots@.take(min_nat(depots@.len(), max_depots as nat) as int),
{
    copy_first(depots, max_depots as usize)
}

/// What `GetAppInstallDir` writes into a buffer of `size` bytes, and the
/// count it returns (the text bytes written); nothing and 0 for an empty
/// buffer or an unknown app.
pub fn install_dir_output(dir: Option<&str>, size: u32) -> (r: (Vec<u8>, u32))
    ensures
        size == 0 || dir is None ==> r.0@.len() == 0 && r.1 == 0,
        size > 0 && dir is Some ==> r.0@ == c_string_in_buffer(utf8_bytes(dir->0@), size as nat)
            && r.1 == r.0@.len() - 1,
{
    if size == 0 {
        return (Vec::new(), 0);
    }
    match dir {
        Some(d) => {
            let out = copy_c_string(d.as_bytes(), size as usize);
            let n = (out.len() - 1) as u32;
            (out, n)
        },
        None => (Vec::new(), 0),
    }
}

/// What `GetLaunchCommandLine` writes into a buffer of `size` bytes, and
/// the count it returns; nothing and 0 for an empty buffer or no command
/// line.
pub fn launch_command_line_output(cmd: Option<&str>, size: i32) -> (r: (Vec<u8>, i32))
    ensures
        size <= 0 || cmd is None ==> r.0@.len() == 0 && r.1 == 0,
        size > 0 && cmd is Some ==> r.0@ == c_string_in_buffer(utf8_bytes(cmd->0@), size as nat)
            && r.1 == r.0@.len() - 1,
{
    if size <= 0 {
        return (Vec::new(), 0);
    }
    match cmd {
        Some(c) => {
            let out = copy_c_string(c.as_bytes(), size as usize);
            let n = (out.len() - 1) as i32;
            (out, n)
        },
        None => (Vec::new(), 0),
    }
}

/// What the protection layer reports of a file.
#[derive(Clone, Copy)]
pub struct FileDetails {
    pub size: u64,
    pub sha: [u8; 20],
    pub flags: u32,
}

/// The `FileDetailsResult_t` callback.
#[derive(Clone, Copy)]
pub struct FileDetailsResult_t {
    pub result: i32,
    pub file_size: u64,
    pub file_hash: [u8; 20],
    pub flags: u32,
}

/// The callback for a file-details request: OK with the details, or
/// failure with zeros.
pub fn file_details_result(details: Option<FileDetails>) -> (r: FileDetailsResult_t)
    ensures
        details matches Some(d) ==> r.result == 1 && r.file_size == d.size && r.file_hash == d.sha
            && r.flags == d.flags,
        details is None ==> r.result == 2 && r.file_size == 0 && r.file_hash@ == Seq::new(
            20,
            |i: int| 0u8,
        ) && r.flags == 0,
{
    match details {
        Some(d) => FileDetailsResult_t { result: 1, file_size: d.size, file_hash: d.sha, flags: d.flags },
        None => {
            let r = FileDetailsResult_t { result: 2, file_size: 0, file_hash: [0u8; 20], flags: 0 };
            assert(r.file_hash@ =~= Seq::new(20, |i: int| 0u8));
            r
        },
    }
}

// ---------------------------------------------------------------------------
// ISteamFriends
// ---------------------------------------------------------------------------

/// The `SetPersonaNameResponse_t` callback.
#[derive(Clone, Copy, PartialEq, Eq, Structural)]
pub struct SetPersonaNameResponse_t {
    pub success: bool,
    pub local_success: bool,
    pub result: i32,
}

/// The callback for a persona name change: success with OK, or failure.
pub fn set_persona_name_response(changed: bool) -> (r: SetPersonaNameResponse_t)
    ensures
        changed ==> r == (SetPersonaNameResponse_t { success: true, local_success: true, result: 1 }),
        !changed ==> r == (SetPersonaNameResponse_t { success: false, local_success: false, result: 2 }),
{
    if changed {
        SetPersonaNameResponse_t { success: true, local_success: true, result: 1 }
    } else {
        SetPersonaNameResponse_t { success: false, local_success: false, result: 2 }
    }
}

/// What `GetFriendsGroupMembersList` writes for a buffer of `members_count`
/// entries; nothing for a count under one.
pub fn group_members_output(members: &[u64], members_count: i32) -> (r: Vec<u64>)
    ensures
        members_count <= 0 ==> r@.len() == 0,
        members_count > 0 ==> r@ == members@.take(min_nat(members@.len(), members_count as nat) as int),
{
    if members_count <= 0 {
        return Vec::new();
    }
    copy_first(members, members_count as usize)
}

// ---------------------------------------------------------------------------
// ISteamMatchmaking
// ---------------------------------------------------------------------------

/// The `LobbyCreated_t` callback.
#[derive(Clone, Copy, PartialEq, Eq, Structural)]
pub struct LobbyCreated_t {
    pub result: i32,
    pub steamid_lobby: u64,
}

/// The callback for a lobby creation: OK with the lobby's ID, or failure
/// with 0.
pub fn lobby_created(outcome: Option<u64>) -> (r: LobbyCreated_t)
    ensures
        outcome matches Some(id) ==> r == (LobbyCreated_t { result: 1, steamid_lobby: id }),
        outcome is None ==> r == (LobbyCreated_t { result: 2, steamid_lobby: 0 }),
{
    match outcome {
        Some(id) => LobbyCreated_t { result: 1, steamid_lobby: id },
        None => LobbyCreated_t { result: 2, steamid_lobby: 0 },
    }
}

/// The `LobbyEnter_t` callback.
#[derive(Clone, Copy, PartialEq, Eq, Structural)]
pub struct LobbyEnter_t {
    pub steamid_lobby: u64,
    pub chat_permissions: u32,
    pub blocked: bool,
    pub chat_room_enter_response: u32,
}

/// The callback for joining `lobby`: `Success` (1) or `DoesntExist` (2).
pub fn lobby_entered(lobby: u64, joined: bool) -> (r: LobbyEnter_t)
    ensures
        r.steamid_lobby == lobby,
        r.chat_permissions == 0,
        !r.blocked,
        r.chat_room_enter_response == if joined {
            1u32
        } else {
            2u32
        },
{
    LobbyEnter_t {
        steamid_lobby: lobby,
        chat_permissions: 0,
        blocked: false,
        chat_room_enter_response: if joined {
            1
        } else {
            2
        },
    }
}

/// The `LobbyMatchList_t` callback.
#[derive(Clone, Copy, PartialEq, Eq, Structural)]
pub struct LobbyMatchList_t {
    pub lobbies_matching: u32,
}

/// The callback for a lobby list of `count` lobbies.
pub fn lobby_match_list(count: usize) -> (r: LobbyMatchList_t)
    ensures
        r.lobbies_matching == count as u32,
{
    LobbyMatchList_t { lobbies_matching: count as u32 }
}

/// What `GetLobbyDataByIndex` writes: the key and the value, each in its
/// buffer. `None` (false) when either buffer is empty or there is no such
/// entry.
pub fn lobby_data_by_index_output(entry: Option<(&str, &str)>, key_size: i32, value_size: i32) -> (r: Option<(Vec<u8>, Vec<u8>)>)
    ensures
        r is Some <==> key_size > 0 && value_size > 0 && entry is Some,
        r matches Some((k, v)) ==> (entry matches Some((ek, ev)) && k@ == c_string_in_buffer(
            utf8_bytes(ek@),
            key_size as nat,
        ) && v@ == c_string_in_buffer(utf8_bytes(ev@), value_size as nat)),
{
    if key_size <= 0 || value_size <= 0 {
        return None;
    }
    match entry {
        Some((k, v)) => Some(
            (copy_c_string(k.as_bytes(), key_size as usize), copy_c_string(v.as_bytes(), value_size as usize)),
        ),
        None => None,
    }
}

/// A lobby chat message as the matchmaking manager holds it.
pub struct LobbyChatEntry {
    pub sender: u64,
    pub entry_type: i32,
    pub data: Vec<u8>,
}

/// What `GetLobbyChatEntry` reports: the sender, the entry type, the bytes
/// copied into a buffer of `msg_body_size` bytes (when one is given and not
/// empty), and the count returned: the bytes copied, or else the message's
/// whole length. `None` (0) when there is no such entry.
pub fn lobby_chat_entry_output(entry: Option<&LobbyChatEntry>, has_buffer: bool, msg_body_size: i32) -> (r: Option<(u64, i32, Option<Vec<u8>>, i32)>)
    ensures
        r is Some <==> entry is Some,
        r matches Some((sender, kind, copied, count)) ==> {
            let e = entry->0;
            &&& sender == e.sender
            &&& kind == e.entry_type
            &&& has_buffer && msg_body_size > 0 ==> (copied matches Some(b) && b@ == truncated(
                e.data@,
                msg_body_size as nat,
            ) && count == b@.len() as i32)
            &&& !(has_buffer && msg_body_size > 0) ==> copied is None && count == e.data@.len() as i32
        },
{
    match entry {
        Some(e) => {
            if has_buffer && msg_body_size > 0 {
                let b = copy_prefix(e.data.as_slice(), msg_body_size as usize);
                let n = b.len() as i32;
                Some((e.sender, e.entry_type, Some(b), n))
            } else {
                Some((e.sender, e.entry_type, None, e.data.len() as i32))
            }
        },
        None => None,
    }
}

// ---------------------------------------------------------------------------
// ISteamUtils
// ---------------------------------------------------------------------------

/// What `GetImageRGBA` writes for a buffer of `dest_size` bytes: the whole
/// image when the manager has it and it fits; `None` (false) otherwise.
pub fn image_data_output(data: Option<&[u8]>, dest_size: i32) -> (r: Option<Vec<u8>>)
    ensures
        r is Some <==> dest_size > 0 && data is Some && data->0@.len() <= dest_size as usize,
        r matches Some(b) ==> b@ == data->0@,
{
    if dest_size <= 0 {
        return None;
    }
    match data {
        Some(d) => {
            if d.len() > dest_size as usize {
                None
            } else {
                let b = copy_prefix(d, d.len());
                assert(d@.take(d@.len() as int) =~= d@);
                Some(b)
            }
        },
        None => None,
    }
}

/// What `FilterText` writes for a buffer of `output_size` bytes when the
/// manager returns `filtered`, and the count returned; nothing and 0 for an
/// empty buffer or no text.
pub fn filtered_text_output(filtered: Option<&str>, output_size: u32) -> (r: (Vec<u8>, i32))
    ensures
        output_size == 0 || filtered is None ==> r.0@.len() == 0 && r.1 == 0,
        output_size > 0 && filtered is Some ==> r.0@ == c_string_in_buffer(
            utf8_bytes(filtered->0@),
            output_size as nat,
        ) && r.1 == (r.0@.len() - 1) as i32,
{
    if output_size == 0 {
        return (Vec::new(), 0);
    }
    match filtered {
        Some(t) => {
            let out = copy_c_string(t.as_bytes(), output_size as usize);
            let n = (out.len() - 1) as i32;
            (out, n)
        },
        None => (Vec::new(), 0),
    }
}

/// A game a friend plays, as the friends manager describes it.
#[derive(Clone, Copy)]
pub struct GamePlayed {
    pub game_id: u64,
    pub game_ip: u32,
    pub game_port: u16,
    pub query_port: u16,
    pub lobby_id: u64,
}

/// What `GetFriendGamePlayed` writes: the manager's answer, field by field;
/// `None` (false) when the friend plays nothing.
pub fn friend_game_info_output(game: Option<GamePlayed>) -> (r: Option<FriendGameInfo_t>)
    ensures
        r is Some <==> game is Some,
        r matches Some(info) ==> {
            let g = game->0;
            &&& info.game_id == g.game_id
            &&& info.game_ip == g.game_ip
            &&& info.game_port == g.game_port
            &&& info.query_port == g.query_port
            &&& info.steam_id_lobby == g.lobby_id
        },
{
    match game {
        Some(g) => Some(
            FriendGameInfo_t {
                game_id: g.game_id,
                game_ip: g.game_ip,
                game_port: g.game_port,
                query_port: g.query_port,
                steam_id_lobby: g.lobby_id,
            },
        ),
        None => None,
    }
}

/// The `CheckFileSignature_t` callback.
#[derive(Clone, Copy, PartialEq, Eq, Structural)]
pub struct CheckFileSignature_t {
    pub check_file_signature: i32,
}

/// The callback for a signature check: `ValidSignature` (0) or
/// `InvalidSignature` (2).
pub fn check_file_signature_result(valid: bool) -> (r: CheckFileSignature_t)
    ensures
        r.check_file_signature == if valid {
            0i32
        } else {
            2i32
        },
{
    CheckFileSignature_t {
        check_file_signature: if valid {
            0
        } else {
            2
        },
    }
}

/// What `GetEnteredGamepadTextInput` writes for a buffer of `text_size`
/// bytes when the manager holds `text`; `None` (false) for an empty buffer
/// or no text.
pub fn entered_text_output(text: Option<&str>, text_size: u32) -> (r: Option<Vec<u8>>)
    ensures
        r is Some <==> text is Some && text_size > 0,
        r matches Some(b) ==> b@ == c_string_in_buffer(utf8_bytes(text->0@), text_size as nat),
{
    if text_size == 0 {
        return None;
    }
    match text {
        Some(t) => Some(copy_c_string(t.as_bytes(), text_size as usize)),
        None => None,
    }
}

} // verus!
