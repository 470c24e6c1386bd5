//! The client protocol: its messages, the login, friends and matchmaking
//! services that build them, and the length-prefixed framing of the TCP
//! transport. Turning a message into bytes, and moving bytes over a socket
//! or a channel, is the caller's part.
use crate::advanced::{sha256, sha256_digest, CryptoContext};
use crate::cbuf::{append_bytes, utf8_bytes};
use crate::rng::random_u64;
use crate::strmap::StrMap;
use vstd::prelude::*;
use vstd::string::*;

verus! {

/// A game server as the server list describes it.
pub struct GameServerInfo {
    pub server_id: u64,
    pub ip: String,
    pub port: u16,
    pub name: String,
    pub players: u32,
    pub max_players: u32,
    pub map: String,
    pub ping: u32,
}

/// A lobby as the lobby list describes it; its metadata maps keys to values.
pub struct LobbyInfo {
    pub lobby_id: u64,
    pub owner: u64,
    pub app_id: u32,
    pub members: Vec<u64>,
    pub metadata: StrMap<String>,
}

/// A condition on a lobby's metadata.
pub struct LobbyFilter {
    pub key: String,
    pub value: String,
    pub comparison: i32,
}

/// A friend as the friends service reports it.
pub struct FriendInfo {
    pub steam_id: u64,
    pub persona_name: String,
    pub persona_state: i32,
    pub game_id: u64,
    pub avatar_hash: String,
}

/// The messages of the client protocol.
pub enum SteamMessage {
    ClientLogon { username: String, password_hash: Vec<u8>, protocol_version: u32 },
    ClientLogonResponse { result: i32, steam_id: u64, session_token: Vec<u8> },
    ClientHeartbeat { timestamp: u64 },
    ClientFriendMsg { recipient: u64, message: String, chat_entry_type: i32 },
    ClientPersonaState { steam_id: u64, persona_state: i32, player_name: String, game_id: u64 },
    ClientServerList { app_id: u32, region: String },
    ClientServerListResponse { servers: Vec<GameServerInfo> },
    ClientRequestLobbyList { app_id: u32, filters: Vec<LobbyFilter> },
    ClientLobbyListResponse { lobbies: Vec<LobbyInfo> },
}

/// The protocol version a logon announces.
pub const PROTOCOL_VERSION: u32 = 65580;

/// The first Steam ID of the individual-account range used here.
pub const BASE_STEAM_ID: u64 = 76561198000000000;

/// The session token a successful login holds.
pub open spec fn login_token() -> Seq<u8> {
    seq![1u8, 2, 3, 4]
}

/// The Steam ID a login draws from the random value `random`.
pub open spec fn login_steam_id(random: u64) -> u64 {
    (BASE_STEAM_ID + random % 1000000) as u64
}

/// The login service: the session's crypto context, and once logged in the
/// session token and the account's Steam ID.
pub struct AuthService {
    pub crypto: CryptoContext,
    pub session_token: Option<Vec<u8>>,
    pub steam_id: Option<u64>,
}

impl AuthService {
    pub fn new() -> (s: Self)
        ensures
            s.session_token is None,
            s.steam_id is None,
            s.crypto.sequence_num == 0,
    {
        AuthService { crypto: CryptoContext::new(), session_token: None, steam_id: None }
    }

    /// The SHA-256 digest of the password's UTF-8 bytes.
    fn hash_password(password: &str) -> (h: Vec<u8>)
        ensures
            h@ == sha256_digest(utf8_bytes(password@)),
            h@.len() == 32,
    {
        sha256(password.as_bytes())
    }

    /// The logon message for `username` and `password`: the password travels
    /// as its SHA-256 digest, with the current protocol version.
    pub fn logon_message(username: &str, password: &str) -> (m: SteamMessage)
        ensures
            m matches SteamMessage::ClientLogon { username: u, password_hash: h, protocol_version: v }
                && u@ == username@ && h@ == sha256_digest(utf8_bytes(password@))
                && v == PROTOCOL_VERSION,
    {
        SteamMessage::ClientLogon {
            username: String::from_str(username),
            password_hash: Self::hash_password(password),
            protocol_version: PROTOCOL_VERSION,
        }
    }

    /// Completes a login whose logon message, serialized by the caller, is
    /// `serialized_logon`: it is encrypted for sending, and the answer is
    /// taken to be the Steam ID drawn from `random`, with the fixed session
    /// token.
    pub fn login_with(&mut self, serialized_logon: &[u8], random: u64) -> (r: Result<u64, String>)
        requires
            old(self).crypto.sequence_num < u64::MAX,
        ensures
            r == Ok::<u64, String>(login_steam_id(random)),
            final(self).steam_id == Some(login_steam_id(random)),
            final(self).session_token matches Some(t) && t@ == login_token(),
            final(self).crypto.sequence_num == old(self).crypto.sequence_num + 1,
            final(self).crypto.session_key == old(self).crypto.session_key,
    {
        let _encrypted = self.crypto.encrypt(serialized_logon);
        let steam_id = BASE_STEAM_ID + random % 1000000;
        self.steam_id = Some(steam_id);
        let token: Vec<u8> = vec![1u8, 2, 3, 4];
        assert(token@ =~= login_token());
        self.session_token = Some(token);
        Ok(steam_id)
    }

    /// `login_with` on a random value: the Steam ID lies in the million IDs
    /// from `BASE_STEAM_ID` on.
    pub fn login(&mut self, serialized_logon: &[u8]) -> (r: Result<u64, String>)
        requires
            old(self).crypto.sequence_num < u64::MAX,
        ensures
            r matches Ok(id) && BASE_STEAM_ID <= id < BASE_STEAM_ID + 1000000
                && final(self).steam_id == Some(id),
            final(self).session_token matches Some(t) && t@ == login_token(),
            final(self).crypto.sequence_num == old(self).crypto.sequence_num + 1,
    {
        let random = random_u64();
        self.login_with(serialized_logon, random)
    }

    /// Logs in with an auth ticket: the account is always `BASE_STEAM_ID`;
    /// the session token is left as it was.
    pub fn login_with_ticket(&mut self, ticket: &[u8]) -> (r: Result<u64, String>)
        ensures
            r == Ok::<u64, String>(BASE_STEAM_ID),
            final(self).steam_id == Some(BASE_STEAM_ID),
            final(self).session_token == old(self).session_token,
            final(self).crypto == old(self).crypto,
    {
        self.steam_id = Some(BASE_STEAM_ID);
        Ok(BASE_STEAM_ID)
    }

    /// Refreshes the session: `Not logged in` when there is no session token.
    pub fn refresh_session(&self) -> (r: Result<(), String>)
        ensures
            r is Ok <==> self.session_token is Some,
            r matches Err(e) ==> e@ == "Not logged in"@,
    {
        match &self.session_token {
            None => Err(String::from_str("Not logged in")),
            Some(_) => Ok(()),
        }
    }
}

/// The friends service: the last list it synchronised.
pub struct FriendsService {
    pub friends_list: Vec<FriendInfo>,
}

/// The one friend the server reports.
pub open spec fn is_default_friend(f: FriendInfo) -> bool {
    &&& f.steam_id == 76561198000000001
    &&& f.persona_name@ == "TestFriend1"@
    &&& f.persona_state == 1
    &&& f.game_id == 0
    &&& f.avatar_hash@ == "abc123"@
}

fn default_friend() -> (f: FriendInfo)
    ensures
        is_default_friend(f),
{
    FriendInfo {
        steam_id: 76561198000000001,
        persona_name: String::from_str("TestFriend1"),
        persona_state: 1,
        game_id: 0,
        avatar_hash: String::from_str("abc123"),
    }
}

/// The player name a persona update announces.
pub open spec fn announced_player_name() -> Seq<char> {
    "OraclePlayer"@
}

impl FriendsService {
    pub fn new() -> (s: Self)
        ensures
            s.friends_list@.len() == 0,
    {
        FriendsService { friends_list: Vec::new() }
    }

    /// Synchronises the list from the server, which reports one friend; the
    /// list held and the list returned are that one friend.
    pub fn sync_friends_list(&mut self) -> (r: Result<Vec<FriendInfo>, String>)
        ensures
            r matches Ok(v) && v@.len() == 1 && is_default_friend(v@[0]),
            final(self).friends_list@.len() == 1,
            is_default_friend(final(self).friends_list@[0]),
    {
        let mut held: Vec<FriendInfo> = Vec::new();
        held.push(default_friend());
        self.friends_list = held;
        let mut reported: Vec<FriendInfo> = Vec::new();
        reported.push(default_friend());
        Ok(reported)
    }

    /// The message that sends `message` to `recipient` as a chat entry.
    pub fn chat_message(recipient: u64, message: String) -> (m: SteamMessage)
        ensures
            m matches SteamMessage::ClientFriendMsg { recipient: r, message: t, chat_entry_type: k }
                && r == recipient && t@ == message@ && k == 1,
    {
        SteamMessage::ClientFriendMsg { recipient, message, chat_entry_type: 1 }
    }

    /// The message that announces persona state `state` for `steam_id`.
    pub fn persona_state_message(steam_id: u64, state: i32) -> (m: SteamMessage)
        ensures
            m matches SteamMessage::ClientPersonaState {
                steam_id: s,
                persona_state: p,
                player_name: n,
                game_id: g,
            } && s == steam_id && p == state && n@ == announced_player_name() && g == 0,
    {
        SteamMessage::ClientPersonaState {
            steam_id,
            persona_state: state,
            player_name: String::from_str("OraclePlayer"),
            game_id: 0,
        }
    }
}

/// The matchmaking service's requests.
pub struct MatchmakingService;

impl MatchmakingService {
    /// The message that asks for the lobbies of `app_id` matching `filters`.
    pub fn lobby_list_request(app_id: u32, filters: Vec<LobbyFilter>) -> (m: SteamMessage)
        ensures
            m matches SteamMessage::ClientRequestLobbyList { app_id: a, filters: f } && a == app_id
                && f@ == filters@,
    {
        SteamMessage::ClientRequestLobbyList { app_id, filters }
    }

    /// The message that asks for the servers of `app_id` in `region`.
    pub fn server_list_request(app_id: u32, region: String) -> (m: SteamMessage)
        ensures
            m matches SteamMessage::ClientServerList { app_id: a, region: g } && a == app_id && g@
                == region@,
    {
        SteamMessage::ClientServerList { app_id, region }
    }
}

/// `n` as four big-endian bytes.
pub open spec fn be32(n: u32) -> Seq<u8> {
    seq![
        (n / 0x1000000 % 0x100) as u8,
        (n / 0x10000 % 0x100) as u8,
        (n / 0x100 % 0x100) as u8,
        (n % 0x100) as u8,
    ]
}

/// The number that four big-endian bytes hold.
pub open spec fn be32_value(b: Seq<u8>) -> int {
    b[0] * 0x1000000 + b[1] * 0x10000 + b[2] * 0x100 + b[3]
}

/// The length prefix of a frame: the body's length, reduced to 32 bits.
pub open spec fn frame_prefix(len: nat) -> Seq<u8> {
    be32((len % 0x1_0000_0000) as u32)
}

/// The TCP transport: the session crypto and whether a stream is open.
pub struct TcpTransport {
    pub crypto: CryptoContext,
    pub connected: bool,
}

impl TcpTransport {
    pub fn new() -> (t: Self)
        ensures
            !t.connected,
            t.crypto.sequence_num == 0,
    {
        TcpTransport { crypto: CryptoContext::new(), connected: false }
    }

    /// Records that the caller opened the stream.
    pub fn set_connected(&mut self)
        ensures
            final(self).connected,
            final(self).crypto == old(self).crypto,
    {
        self.connected = true;
    }

    /// The bytes to write for `data`: `Not connected` without a stream, else
    /// the encrypted body behind its big-endian length prefix.
    pub fn send(&mut self, data: &[u8]) -> (r: Result<Vec<u8>, String>)
        requires
            old(self).crypto.sequence_num < u64::MAX,
        ensures
            r is Ok <==> old(self).connected,
            r matches Ok(frame) ==> frame@ == frame_prefix(data@.len()) + data@
                && final(self).crypto.sequence_num == old(self).crypto.sequence_num + 1,
            r matches Err(e) ==> e@ == "Not connected"@ && final(self).crypto == old(self).crypto,
            final(self).connected == old(self).connected,
    {
        if !self.connected {
            return Err(String::from_str("Not connected"));
        }
        let encrypted = self.crypto.encrypt(data);
        let n: u32 = ((encrypted.len() as u64) % 0x1_0000_0000) as u32;
        let mut frame: Vec<u8> = Vec::new();
        frame.push((n / 0x1000000 % 0x100) as u8);
        frame.push((n / 0x10000 % 0x100) as u8);
        frame.push((n / 0x100 % 0x100) as u8);
        frame.push((n % 0x100) as u8);
        assert(frame@ =~= frame_prefix(data@.len()));
        append_bytes(&mut frame, encrypted.as_slice());
        Ok(frame)
    }

    /// The body length announced by a frame's four-byte prefix.
    pub fn frame_length(header: [u8; 4]) -> (n: u32)
        ensures
            n == be32_value(header@),
    {
        (header[0] as u32) * 0x1000000 + (header[1] as u32) * 0x10000 + (header[2] as u32) * 0x100
            + (header[3] as u32)
    }

    /// The message carried by a received frame body: `Not connected` without
    /// a stream, else the body decrypted.
    pub fn receive(&self, body: &[u8]) -> (r: Result<Vec<u8>, String>)
        ensures
            r is Ok <==> self.connected,
            r matches Ok(v) ==> v@ == body@,
            r matches Err(e) ==> e@ == "Not connected"@,
    {
        if !self.connected {
            return Err(String::from_str("Not connected"));
        }
        self.crypto.decrypt(body)
    }
}

/// The length prefix of a frame reads back as the body's length, for any
/// body shorter than 2^32 bytes.
pub proof fn lemma_frame_length_round_trip(len: nat)
    requires
        len < 0x1_0000_0000,
    ensures
        be32_value(frame_prefix(len)) == len,
{
    let n = (len % 0x1_0000_0000) as u32;
    assert(n == len);
    assert(be32_value(be32(n)) == n) by (nonlinear_arith)
        requires
            be32(n)[0] == (n / 0x1000000 % 0x100) as u8,
            be32(n)[1] == (n / 0x10000 % 0x100) as u8,
            be32(n)[2] == (n / 0x100 % 0x100) as u8,
            be32(n)[3] == (n % 0x100) as u8,
            be32_value(be32(n)) == be32(n)[0] * 0x1000000 + be32(n)[1] * 0x10000 + be32(n)[2] * 0x100 + be32(n)[3],
    ;
}

} // verus!
