//! The emulated ISteamGameServer and ISteamGameServerStats interfaces: the
//! server's description, its rules, and the stats and achievements recorded
//! for connected players.
use crate::cbuf::{copy_prefix, truncated};
use crate::rng::random_u64;
use crate::strmap::{StrMap, StrSet};
use std::collections::HashMap;
use vstd::prelude::*;
use vstd::string::*;

verus! {

broadcast use vstd::std_specs::hash::group_hash_axioms;

pub struct GameServerState {
    pub steam_id: u64,
    pub logged_on: bool,
    pub secure: bool,
    pub dedicated: bool,
    pub product: String,
    pub game_description: String,
    pub server_name: String,
    pub map_name: String,
    pub spectator_port: u16,
    pub spectator_server_name: String,
    pub max_players: i32,
    pub bot_count: i32,
    pub password_protected: bool,
    pub game_tags: String,
    pub game_data: String,
    pub region: i32,
    pub public_ip: u32,
    pub query_port: u16,
    pub game_port: u16,
}

pub struct GameServerView {
    pub steam_id: u64,
    pub logged_on: bool,
    pub secure: bool,
    pub dedicated: bool,
    pub product: Seq<char>,
    pub game_description: Seq<char>,
    pub server_name: Seq<char>,
    pub map_name: Seq<char>,
    pub spectator_port: u16,
    pub spectator_server_name: Seq<char>,
    pub max_players: i32,
    pub bot_count: i32,
    pub password_protected: bool,
    pub game_tags: Seq<char>,
    pub game_data: Seq<char>,
    pub region: i32,
    pub public_ip: u32,
    pub query_port: u16,
    pub game_port: u16,
}

/// The steam id a game server starts with.
pub const GAME_SERVER_STEAM_ID: u64 = 90071992547409920;

/// The text fields a game server can be given.
pub enum ServerText {
    Product,
    GameDescription,
    ServerName,
    MapName,
    SpectatorServerName,
    GameTags,
    GameData,
}

pub open spec fn with_text(v: GameServerView, field: ServerText, text: Seq<char>) -> GameServerView {
    match field {
        ServerText::Product => GameServerView { product: text, ..v },
        ServerText::GameDescription => GameServerView { game_description: text, ..v },
        ServerText::ServerName => GameServerView { server_name: text, ..v },
        ServerText::MapName => GameServerView { map_name: text, ..v },
        ServerText::SpectatorServerName => GameServerView { spectator_server_name: text, ..v },
        ServerText::GameTags => GameServerView { game_tags: text, ..v },
        ServerText::GameData => GameServerView { game_data: text, ..v },
    }
}

impl GameServerState {
    pub open spec fn view(&self) -> GameServerView {
        GameServerView {
            steam_id: self.steam_id,
            logged_on: self.logged_on,
            secure: self.secure,
            dedicated: self.dedicated,
            product: self.product@,
            game_description: self.game_description@,
            server_name: self.server_name@,
            map_name: self.map_name@,
            spectator_port: self.spectator_port,
            spectator_server_name: self.spectator_server_name@,
            max_players: self.max_players,
            bot_count: self.bot_count,
            password_protected: self.password_protected,
            game_tags: self.game_tags@,
            game_data: self.game_data@,
            region: self.region,
            public_ip: self.public_ip,
            query_port: self.query_port,
            game_port: self.game_port,
        }
    }

    /// A dedicated, logged-off server for up to 32 players in the world
    /// region (255), on port 27015, with the default names.
    pub fn new() -> (s: Self)
        ensures
            s@ == (GameServerView {
                steam_id: GAME_SERVER_STEAM_ID,
                logged_on: false,
                secure: false,
                dedicated: true,
                product: "oracle_steam"@,
                game_description: "Oracle Steam Game Server"@,
                server_name: "Oracle Server"@,
                map_name: "default"@,
                spectator_port: 0,
                spectator_server_name: Seq::empty(),
                max_players: 32,
                bot_count: 0,
                password_protected: false,
                game_tags: Seq::empty(),
                game_data: Seq::empty(),
                region: 255,
                public_ip: 0,
                query_port: 27015,
                game_port: 27015,
            }),
    {
        GameServerState {
            steam_id: GAME_SERVER_STEAM_ID,
            logged_on: false,
            secure: false,
            dedicated: true,
            product: String::from_str("oracle_steam"),
            game_description: String::from_str("Oracle Steam Game Server"),
            server_name: String::from_str("Oracle Server"),
            map_name: String::from_str("default"),
            spectator_port: 0,
            spectator_server_name: String::new(),
            max_players: 32,
            bot_count: 0,
            password_protected: false,
            game_tags: String::new(),
            game_data: String::new(),
            region: 255,
            public_ip: 0,
            query_port: 27015,
            game_port: 27015,
        }
    }

    /// Records the address and ports and logs the server on.
    pub fn init_game_server(&mut self, ip: u32, game_port: u16, query_port: u16) -> (ok: bool)
        ensures
            ok,
            final(self)@ == (GameServerView {
                public_ip: ip,
                game_port,
                query_port,
                logged_on: true,
                ..old(self)@
            }),
    {
        self.public_ip = ip;
        self.game_port = game_port;
        self.query_port = query_port;
        self.logged_on = true;
        true
    }

    /// Replaces one of the server's text fields.
    pub fn set_text(&mut self, field: ServerText, text: &str)
        ensures
            final(self)@ == with_text(old(self)@, field, text@),
    {
        let t = String::from_str(text);
        match field {
            ServerText::Product => self.product = t,
            ServerText::GameDescription => self.game_description = t,
            ServerText::ServerName => self.server_name = t,
            ServerText::MapName => self.map_name = t,
            ServerText::SpectatorServerName => self.spectator_server_name = t,
            ServerText::GameTags => self.game_tags = t,
            ServerText::GameData => self.game_data = t,
        }
    }

    /// Logs the server on (with a token or anonymously) or off.
    pub fn set_logged_on(&mut self, logged_on: bool)
        ensures
            final(self)@ == (GameServerView { logged_on, ..old(self)@ }),
    {
        self.logged_on = logged_on;
    }
}

/// The ticket a game server hands out: `ORACLE_GAMESERVER_TICKET`.
pub open spec fn server_ticket() -> Seq<u8> {
    seq![
        79u8, 82, 65, 67, 76, 69, 95, 71, 65, 77, 69, 83, 69, 82, 86, 69, 82, 95, 84, 73, 67, 75,
        69, 84,
    ]
}

/// The bytes of the server ticket that fit a buffer of `max_ticket` bytes (a
/// negative size, read as an unsigned one, does not limit the copy).
pub fn server_auth_ticket(max_ticket: i32) -> (t: Vec<u8>)
    ensures
        t@ == truncated(server_ticket(), max_ticket as usize as nat),
{
    let ticket: Vec<u8> = vec![
        79u8, 82, 65, 67, 76, 69, 95, 71, 65, 77, 69, 83, 69, 82, 86, 69, 82, 95, 84, 73, 67, 75,
        69, 84,
    ];
    assert(ticket@ =~= server_ticket());
    copy_prefix(ticket.as_slice(), max_ticket as usize)
}

/// The first steam id that a player connection is given.
pub const FIRST_USER_STEAM_ID: u64 = 76561198000000000;

/// The steam id a player connection is given for the random value `r`.
pub open spec fn user_steam_id_of(r: u64) -> u64 {
    (FIRST_USER_STEAM_ID + r % 1000000) as u64
}

pub fn user_steam_id_from(r: u64) -> (id: u64)
    ensures
        id == user_steam_id_of(r),
        FIRST_USER_STEAM_ID <= id < FIRST_USER_STEAM_ID + 1000000,
{
    FIRST_USER_STEAM_ID + r % 1000000
}

/// A steam id for a newly connected player, drawn at random among the
/// million ids from `FIRST_USER_STEAM_ID` on.
pub fn new_user_steam_id() -> (id: u64)
    ensures
        FIRST_USER_STEAM_ID <= id < FIRST_USER_STEAM_ID + 1000000,
{
    user_steam_id_from(random_u64())
}

pub struct PlayerServerStats {
    pub steam_id: u64,
    pub stats: StrMap<i32>,
    pub achievements: StrSet,
}

pub struct PlayerView {
    pub stats: Map<Seq<char>, i32>,
    pub achievements: Set<Seq<char>>,
}

impl PlayerServerStats {
    pub open spec fn wf(&self) -> bool {
        self.stats.wf() && self.achievements.wf()
    }

    pub open spec fn view(&self) -> PlayerView {
        PlayerView { stats: self.stats@, achievements: self.achievements@ }
    }
}

pub open spec fn empty_player() -> PlayerView {
    PlayerView { stats: Map::empty(), achievements: Set::empty() }
}

/// The record of player `id`, or an empty one when there is none.
pub open spec fn player_or_empty(players: Map<u64, PlayerView>, id: u64) -> PlayerView {
    if players.contains_key(id) {
        players[id]
    } else {
        empty_player()
    }
}

/// Stat `name` of player `id`, when both exist.
pub open spec fn stat_of(players: Map<u64, PlayerView>, id: u64, name: Seq<char>) -> Option<i32> {
    if players.contains_key(id) && players[id].stats.contains_key(name) {
        Some(players[id].stats[name])
    } else {
        None
    }
}

/// Whether player `id` has achievement `name`; `None` without a record.
pub open spec fn achievement_of(players: Map<u64, PlayerView>, id: u64, name: Seq<char>) -> Option<bool> {
    if players.contains_key(id) {
        Some(players[id].achievements.contains(name))
    } else {
        None
    }
}

/// The players after stat `name` of player `id` was set to `value`.
pub open spec fn with_stat(players: Map<u64, PlayerView>, id: u64, name: Seq<char>, value: i32) -> Map<u64, PlayerView> {
    let p = player_or_empty(players, id);
    players.insert(id, PlayerView { stats: p.stats.insert(name, value), ..p })
}

/// The players after player `id` was granted achievement `name`.
pub open spec fn with_achievement(players: Map<u64, PlayerView>, id: u64, name: Seq<char>) -> Map<u64, PlayerView> {
    let p = player_or_empty(players, id);
    players.insert(id, PlayerView { achievements: p.achievements.insert(name), ..p })
}

/// The players after achievement `name` was taken from player `id`, who
/// has a record.
pub open spec fn without_achievement(players: Map<u64, PlayerView>, id: u64, name: Seq<char>) -> Map<u64, PlayerView> {
    players.insert(id, PlayerView { achievements: players[id].achievements.remove(name), ..players[id] })
}

/// The rules the server publishes and the per-player stats it keeps.
pub struct GameServerStats {
    pub rules: StrMap<String>,
    pub players: HashMap<u64, PlayerServerStats>,
}

impl GameServerStats {
    pub open spec fn wf(&self) -> bool {
        &&& self.rules.wf()
        &&& forall|id: u64| #[trigger]
            self.players@.contains_key(id) ==> self.players@[id].wf() && self.players@[id].steam_id
                == id
    }

    pub open spec fn rules_view(&self) -> Map<Seq<char>, Seq<char>> {
        self.rules@.map_values(|v: String| v@)
    }

    pub open spec fn players_view(&self) -> Map<u64, PlayerView> {
        self.players@.map_values(|p: PlayerServerStats| p@)
    }

    pub fn new() -> (s: Self)
        ensures
            s.wf(),
            s.rules_view() == Map::<Seq<char>, Seq<char>>::empty(),
            s.players_view() == Map::<u64, PlayerView>::empty(),
    {
        let s = GameServerStats { rules: StrMap::new(), players: HashMap::new() };
        assert(s.rules_view() =~= Map::<Seq<char>, Seq<char>>::empty());
        assert(s.players_view() =~= Map::<u64, PlayerView>::empty());
        s
    }

    /// Sets rule `key` to `value`.
    pub fn set_key_value(&mut self, key: &str, value: &str)
        requires
            old(self).wf(),
        ensures
            final(self).wf(),
            final(self).rules_view() == old(self).rules_view().insert(key@, value@),
            final(self).players_view() == old(self).players_view(),
    {
        let ghost before = self.rules_view();
        self.rules.insert(String::from_str(key), String::from_str(value));
        assert(self.rules_view() =~= before.insert(key@, value@));
    }

    /// Removes every rule.
    pub fn clear_all_key_values(&mut self)
        requires
            old(self).wf(),
        ensures
            final(self).wf(),
            final(self).rules_view() == Map::<Seq<char>, Seq<char>>::empty(),
            final(self).players_view() == old(self).players_view(),
    {
        self.rules.clear();
        assert(self.rules_view() =~= Map::<Seq<char>, Seq<char>>::empty());
    }

    /// Forgets the stats of a disconnecting player.
    pub fn send_user_disconnect(&mut self, steam_id: u64)
        requires
            old(self).wf(),
        ensures
            final(self).wf(),
            final(self).players_view() == old(self).players_view().remove(steam_id),
            final(self).rules_view() == old(self).rules_view(),
    {
        let ghost before = self.players_view();
        self.players.remove(&steam_id);
        assert(self.players_view() =~= before.remove(steam_id));
    }

    /// Stat `name` of player `steam_id`, when both exist.
    pub fn get_user_stat_int(&self, steam_id: u64, name: &str) -> (r: Option<i32>)
        requires
            self.wf(),
        ensures
            r == stat_of(self.players_view(), steam_id, name@),
    {
        match self.players.get(&steam_id) {
            Some(p) => {
                let key = String::from_str(name);
                match p.stats.get(&key) {
                    Some(v) => Some(*v),
                    None => None,
                }
            },
            None => None,
        }
    }

    /// Takes player `steam_id` out, or a new empty record when there is none.
    fn take_or_create(&mut self, steam_id: u64) -> (p: PlayerServerStats)
        requires
            old(self).wf(),
        ensures
            final(self).wf(),
            p.wf(),
            p.steam_id == steam_id,
            p@ == (if old(self).players_view().contains_key(steam_id) {
                old(self).players_view()[steam_id]
            } else {
                empty_player()
            }),
            final(self).players_view() == old(self).players_view().remove(steam_id),
            final(self).rules_view() == old(self).rules_view(),
    {
        let ghost before = self.players_view();
        let r = self.players.remove(&steam_id);
        assert(self.players_view() =~= before.remove(steam_id));
        match r {
            Some(p) => p,
            None => {
                let p = PlayerServerStats { steam_id, stats: StrMap::new(), achievements: StrSet::new() };
                assert(p@.stats =~= Map::<Seq<char>, i32>::empty());
                p
            },
        }
    }

    fn put_player(&mut self, steam_id: u64, p: PlayerServerStats)
        requires
            old(self).wf(),
            p.wf(),
            p.steam_id == steam_id,
        ensures
            final(self).wf(),
            final(self).players_view() == old(self).players_view().insert(steam_id, p@),
            final(self).rules_view() == old(self).rules_view(),
    {
        let ghost before = self.players_view();
        let ghost v = p@;
        self.players.insert(steam_id, p);
        assert(self.players_view() =~= before.insert(steam_id, v));
    }

    /// Sets stat `name` of player `steam_id`, creating the player's record
    /// when it is missing.
    pub fn set_user_stat_int(&mut self, steam_id: u64, name: &str, value: i32) -> (ok: bool)
        requires
            old(self).wf(),
        ensures
            ok,
            final(self).wf(),
            final(self).players_view() == with_stat(old(self).players_view(), steam_id, name@, value),
            final(self).rules_view() == old(self).rules_view(),
    {
        let mut p = self.take_or_create(steam_id);
        p.stats.insert(String::from_str(name), value);
        self.put_player(steam_id, p);
        true
    }

    /// Whether player `steam_id` has achievement `name`; none when the
    /// player has no record.
    pub fn get_user_achievement(&self, steam_id: u64, name: &str) -> (r: Option<bool>)
        requires
            self.wf(),
        ensures
            r == achievement_of(self.players_view(), steam_id, name@),
    {
        match self.players.get(&steam_id) {
            Some(p) => Some(p.achievements.contains(&String::from_str(name))),
            None => None,
        }
    }

    /// Grants achievement `name` to player `steam_id`, creating the player's
    /// record when it is missing.
    pub fn set_user_achievement(&mut self, steam_id: u64, name: &str) -> (ok: bool)
        requires
            old(self).wf(),
        ensures
            ok,
            final(self).wf(),
            final(self).players_view() == with_achievement(old(self).players_view(), steam_id, name@),
            final(self).rules_view() == old(self).rules_view(),
    {
        let mut p = self.take_or_create(steam_id);
        p.achievements.insert(String::from_str(name));
        self.put_player(steam_id, p);
        true
    }

    /// Takes achievement `name` away from player `steam_id`; false when the
    /// player has no record.
    pub fn clear_user_achievement(&mut self, steam_id: u64, name: &str) -> (ok: bool)
        requires
            old(self).wf(),
        ensures
            final(self).wf(),
            ok == old(self).players_view().contains_key(steam_id),
            ok ==> final(self).players_view() == without_achievement(old(self).players_view(), steam_id, name@),
            !ok ==> final(self).players_view() == old(self).players_view(),
            final(self).rules_view() == old(self).rules_view(),
    {
        if !self.players.contains_key(&steam_id) {
            return false;
        }
        let mut p = self.take_or_create(steam_id);
        p.achievements.remove(&String::from_str(name));
        self.put_player(steam_id, p);
        true
    }
}

/// A stat reads back as the value last set for it.
pub proof fn lemma_stat_read_after_write(players: Map<u64, PlayerView>, id: u64, name: Seq<char>, value: i32)
    ensures
        stat_of(with_stat(players, id, name, value), id, name) == Some(value),
{
}

/// Setting one stat leaves every other stat, of every player, as it was.
pub proof fn lemma_stat_write_keeps_others(
    players: Map<u64, PlayerView>,
    id: u64,
    name: Seq<char>,
    value: i32,
    other_id: u64,
    other_name: Seq<char>,
)
    requires
        other_id != id || other_name != name,
    ensures
        stat_of(with_stat(players, id, name, value), other_id, other_name) == stat_of(
            players,
            other_id,
            other_name,
        ),
{
}

/// A granted achievement reads back as held; cleared right after, it reads
/// back as not held.
pub proof fn lemma_achievement_set_then_clear(players: Map<u64, PlayerView>, id: u64, name: Seq<char>)
    ensures
        achievement_of(with_achievement(players, id, name), id, name) == Some(true),
        achievement_of(without_achievement(with_achievement(players, id, name), id, name), id, name)
            == Some(false),
{
}

/// Once a player disconnects, none of their stats or achievements remain.
pub proof fn lemma_disconnect_forgets_player(players: Map<u64, PlayerView>, id: u64, name: Seq<char>)
    ensures
        stat_of(players.remove(id), id, name) is None,
        achievement_of(players.remove(id), id, name) is None,
{
}

/// Granting achievement `name` to player `id` gives it to them and changes
/// nothing else: every achievement they already held stays held, every other
/// achievement keeps its state, other players are untouched, and no stat
/// changes.
pub proof fn lemma_achievement_grant_keeps_others(
    players: Map<u64, PlayerView>,
    id: u64,
    name: Seq<char>,
    other_id: u64,
    other_name: Seq<char>,
)
    ensures
        achievement_of(with_achievement(players, id, name), id, name) == Some(true),
        achievement_of(players, id, other_name) == Some(true) ==> achievement_of(
            with_achievement(players, id, name),
            id,
            other_name,
        ) == Some(true),
        other_name != name ==> achievement_of(with_achievement(players, id, name), id, other_name)
            == Some(achievement_of(players, id, other_name) == Some(true)),
        other_id != id ==> achievement_of(with_achievement(players, id, name), other_id, other_name)
            == achievement_of(players, other_id, other_name),
        stat_of(with_achievement(players, id, name), other_id, other_name) == stat_of(
            players,
            other_id,
            other_name,
        ),
{
}

/// Clearing achievement `name` of player `id` (who has a record) takes only
/// that one: their other achievements, other players and every stat are as
/// they were.
pub proof fn lemma_achievement_clear_keeps_others(
    players: Map<u64, PlayerView>,
    id: u64,
    name: Seq<char>,
    other_id: u64,
    other_name: Seq<char>,
)
    requires
        players.contains_key(id),
    ensures
        achievement_of(without_achievement(players, id, name), id, name) == Some(false),
        (other_id != id || other_name != name) ==> achievement_of(
            without_achievement(players, id, name),
            other_id,
            other_name,
        ) == achievement_of(players, other_id, other_name),
        stat_of(without_achievement(players, id, name), other_id, other_name) == stat_of(
            players,
            other_id,
            other_name,
        ),
{
}

/// Setting a stat leaves every achievement held as it was.
pub proof fn lemma_stat_write_keeps_achievements(
    players: Map<u64, PlayerView>,
    id: u64,
    name: Seq<char>,
    value: i32,
    other_id: u64,
    other_name: Seq<char>,
)
    ensures
        achievement_of(with_stat(players, id, name, value), other_id, other_name) == Some(true)
            <==> achievement_of(players, other_id, other_name) == Some(true),
{
}

} // verus!

