//! The emulated ISteamFriends interface: the local persona, the friends list
//! with each friend's presence, the clans, and the chat messages sent.
use crate::cbuf::{c_string_in_buffer, copy_c_string, string_bytes, utf8_bytes};
use crate::lookup::{first_index, is_first_index, lemma_first_index_absent, lemma_first_index_unique};
use crate::strmap::StrMap;
use vstd::prelude::*;
use vstd::string::*;

verus! {

pub struct FriendData {
    pub steam_id: u64,
    pub persona_name: String,
    pub persona_state: i32,
    pub game_id: u64,
    pub game_ip: u32,
    pub game_port: u16,
    pub nickname: String,
    pub avatar_hash: [u8; 20],
    pub steam_level: i32,
    pub rich_presence: StrMap<String>,
}

pub struct ClanData {
    pub steam_id: u64,
    pub name: String,
    pub tag: String,
    pub member_count: i32,
}

pub struct ChatMessage {
    pub friend_id: u64,
    pub message: String,
    pub timestamp: u64,
}

/// What a game query on a friend reports (the query port is left to the caller).
pub struct FriendGameInfo_t {
    pub game_id: u64,
    pub game_ip: u32,
    pub game_port: u16,
    pub query_port: u16,
    pub steam_id_lobby: u64,
}

/// The size of the buffers that persona names, nicknames, clan names and
/// presence values are handed out in.
pub const NAME_BUFFER_SIZE: usize = 256;

/// The size of the buffer a clan tag is handed out in.
pub const TAG_BUFFER_SIZE: usize = 64;

/// The relationship reported for someone on the friends list.
pub const RELATIONSHIP_FRIEND: i32 = 3;

pub struct FriendsState {
    pub friends: Vec<FriendData>,
    pub persona_name: String,
    pub persona_state: i32,
    pub rich_presence: StrMap<String>,
    pub clans: Vec<ClanData>,
    pub chat_messages: Vec<ChatMessage>,
}

pub open spec fn friend_ids(s: Seq<FriendData>) -> Seq<u64> {
    s.map_values(|f: FriendData| f.steam_id)
}

pub open spec fn clan_ids(s: Seq<ClanData>) -> Seq<u64> {
    s.map_values(|c: ClanData| c.steam_id)
}

fn new_friend(steam_id: u64, name: &str, persona_state: i32, game_id: u64, steam_level: i32) -> (f: FriendData)
    ensures
        f.steam_id == steam_id,
        f.persona_name@ == name@,
        f.persona_state == persona_state,
        f.game_id == game_id,
        f.game_ip == 0,
        f.game_port == 0,
        f.nickname@ == Seq::<char>::empty(),
        f.steam_level == steam_level,
        f.rich_presence.wf(),
        f.rich_presence@ == Map::<Seq<char>, String>::empty(),
{
    FriendData {
        steam_id,
        persona_name: String::from_str(name),
        persona_state,
        game_id,
        game_ip: 0,
        game_port: 0,
        nickname: String::new(),
        avatar_hash: [0u8; 20],
        steam_level,
        rich_presence: StrMap::new(),
    }
}

impl FriendsState {
    pub open spec fn wf(&self) -> bool {
        &&& self.rich_presence.wf()
        &&& forall|i: int| 0 <= i < self.friends@.len() ==> (#[trigger] self.friends@[i]).rich_presence.wf()
    }

    /// The first friend with steam id `id`.
    pub open spec fn friend(&self, id: u64) -> Option<FriendData> {
        let i = first_index(friend_ids(self.friends@), id);
        if i >= 0 {
            Some(self.friends@[i])
        } else {
            None
        }
    }

    /// The first clan with steam id `id`.
    pub open spec fn clan(&self, id: u64) -> Option<ClanData> {
        let i = first_index(clan_ids(self.clans@), id);
        if i >= 0 {
            Some(self.clans@[i])
        } else {
            None
        }
    }

    /// Two friends (TestFriend1, online, level 10; TestFriend2, in game 730,
    /// level 25), the persona "Player" online, and nothing else.
    pub fn new() -> (s: Self)
        ensures
            s.wf(),
            s.friends@.len() == 2,
            s.friends@[0].steam_id == 76561198000000001u64,
            s.friends@[0].persona_name@ == "TestFriend1"@,
            s.friends@[0].persona_state == 1,
            s.friends@[0].game_id == 0,
            s.friends@[0].steam_level == 10,
            s.friends@[1].steam_id == 76561198000000002u64,
            s.friends@[1].persona_name@ == "TestFriend2"@,
            s.friends@[1].persona_state == 3,
            s.friends@[1].game_id == 730,
            s.friends@[1].steam_level == 25,
            forall|i: int| 0 <= i < 2 ==> (#[trigger] s.friends@[i]).game_ip == 0 && s.friends@[i].game_port == 0
                && s.friends@[i].nickname@ == Seq::<char>::empty()
                && s.friends@[i].rich_presence@ == Map::<Seq<char>, String>::empty(),
            s.persona_name@ == "Player"@,
            s.persona_state == 1,
            s.rich_presence@ == Map::<Seq<char>, String>::empty(),
            s.clans@.len() == 0,
            s.chat_messages@.len() == 0,
    {
        let mut friends: Vec<FriendData> = Vec::new();
        friends.push(new_friend(76561198000000001, "TestFriend1", 1, 0, 10));
        friends.push(new_friend(76561198000000002, "TestFriend2", 3, 730, 25));
        FriendsState {
            friends,
            persona_name: String::from_str("Player"),
            persona_state: 1,
            rich_presence: StrMap::new(),
            clans: Vec::new(),
            chat_messages: Vec::new(),
        }
    }

    /// Position of the first friend with steam id `id`.
    pub fn find_friend(&self, id: u64) -> (r: Option<usize>)
        ensures
            r is None <==> self.friend(id) is None,
            r matches Some(i) ==> i < self.friends@.len() && self.friend(id) == Some(self.friends@[i as int]),
    {
        let ghost ids = friend_ids(self.friends@);
        let mut i: usize = 0;
        while i < self.friends.len()
            invariant
                i <= self.friends@.len(),
                ids == friend_ids(self.friends@),
                forall|j: int| 0 <= j < i ==> ids[j] != id,
            decreases self.friends@.len() - i,
        {
            if self.friends[i].steam_id == id {
                proof {
                    assert(is_first_index(ids, id, i as int));
                    lemma_first_index_unique(ids, id, i as int);
                }
                return Some(i);
            }
            i = i + 1;
        }
        proof {
            lemma_first_index_absent(ids, id);
        }
        None
    }

    /// Position of the first clan with steam id `id`.
    pub fn find_clan(&self, id: u64) -> (r: Option<usize>)
        ensures
            r is None <==> self.clan(id) is None,
            r matches Some(i) ==> i < self.clans@.len() && self.clan(id) == Some(self.clans@[i as int]),
    {
        let ghost ids = clan_ids(self.clans@);
        let mut i: usize = 0;
        while i < self.clans.len()
            invariant
                i <= self.clans@.len(),
                ids == clan_ids(self.clans@),
                forall|j: int| 0 <= j < i ==> ids[j] != id,
            decreases self.clans@.len() - i,
        {
            if self.clans[i].steam_id == id {
                proof {
                    assert(is_first_index(ids, id, i as int));
                    lemma_first_index_unique(ids, id, i as int);
                }
                return Some(i);
            }
            i = i + 1;
        }
        proof {
            lemma_first_index_absent(ids, id);
        }
        None
    }

    /// The persona name as handed out: at most 255 bytes and a NUL.
    pub fn persona_name_buffer(&self) -> (b: Vec<u8>)
        ensures
            b@ == c_string_in_buffer(utf8_bytes(self.persona_name@), NAME_BUFFER_SIZE as nat),
    {
        copy_c_string(string_bytes(&self.persona_name), NAME_BUFFER_SIZE)
    }

    /// Renames the local persona (an unreadable name changes nothing); the
    /// answer is the call handle 1.
    pub fn set_persona_name(&mut self, name: Option<&str>) -> (call: u64)
        ensures
            call == 1,
            final(self).persona_name@ == (match name {
                Some(n) => n@,
                None => old(self).persona_name@,
            }),
            final(self).friends == old(self).friends,
            final(self).rich_presence == old(self).rich_presence,
            final(self).persona_state == old(self).persona_state,
    {
        match name {
            Some(n) => {
                self.persona_name = String::from_str(n);
            },
            None => {},
        }
        1
    }

    /// The number of friends, as a C int.
    pub fn friend_count(&self) -> (n: i32)
        ensures
            n == self.friends@.len() as i32,
    {
        self.friends.len() as i32
    }

    /// The steam id of friend number `index` (a negative index, read as an
    /// unsigned one, is out of range); 0 when there is none.
    pub fn friend_by_index(&self, index: i32) -> (id: u64)
        ensures
            id == (if (index as usize) < self.friends@.len() {
                self.friends@[index as usize as int].steam_id
            } else {
                0
            }),
    {
        let i = index as usize;
        if i < self.friends.len() {
            self.friends[i].steam_id
        } else {
            0
        }
    }

    /// 3 (friend) for someone on the list, 0 (none) otherwise.
    pub fn friend_relationship(&self, id: u64) -> (r: i32)
        ensures
            r == (if self.friend(id) is Some {
                RELATIONSHIP_FRIEND
            } else {
                0
            }),
    {
        if self.find_friend(id).is_some() {
            RELATIONSHIP_FRIEND
        } else {
            0
        }
    }

    pub fn has_friend(&self, id: u64) -> (r: bool)
        ensures
            r == self.friend(id) is Some,
    {
        self.find_friend(id).is_some()
    }

    /// A friend's persona state; 0 (offline) for strangers.
    pub fn friend_persona_state(&self, id: u64) -> (r: i32)
        ensures
            r == (match self.friend(id) {
                Some(f) => f.persona_state,
                None => 0,
            }),
    {
        match self.find_friend(id) {
            Some(i) => self.friends[i].persona_state,
            None => 0,
        }
    }

    /// A friend's steam level; 0 for strangers.
    pub fn friend_steam_level(&self, id: u64) -> (r: i32)
        ensures
            r == (match self.friend(id) {
                Some(f) => f.steam_level,
                None => 0,
            }),
    {
        match self.find_friend(id) {
            Some(i) => self.friends[i].steam_level,
            None => 0,
        }
    }

    /// A friend's persona name as handed out, "Unknown" for strangers (also
    /// the answer for any entry of the name history).
    pub fn friend_persona_name_buffer(&self, id: u64) -> (b: Vec<u8>)
        ensures
            b@ == c_string_in_buffer(
                match self.friend(id) {
                    Some(f) => utf8_bytes(f.persona_name@),
                    None => utf8_bytes("Unknown"@),
                },
                NAME_BUFFER_SIZE as nat,
            ),
    {
        match self.find_friend(id) {
            Some(i) => copy_c_string(string_bytes(&self.friends[i].persona_name), NAME_BUFFER_SIZE),
            None => {
                let unknown = String::from_str("Unknown");
                copy_c_string(string_bytes(&unknown), NAME_BUFFER_SIZE)
            },
        }
    }

    /// The game a friend plays: the game id, address and port, no lobby;
    /// the flag tells whether the game id is not 0.
    pub fn friend_game_played(&self, id: u64) -> (r: Option<(FriendGameInfo_t, bool)>)
        ensures
            r is Some <==> self.friend(id) is Some,
            r matches Some((info, playing)) ==> {
                let f = self.friend(id)->Some_0;
                &&& info.game_id == f.game_id
                &&& info.game_ip == f.game_ip
                &&& info.game_port == f.game_port
                &&& info.query_port == 0
                &&& info.steam_id_lobby == 0
                &&& playing == (f.game_id != 0)
            },
    {
        match self.find_friend(id) {
            Some(i) => {
                let f = &self.friends[i];
                let info = FriendGameInfo_t {
                    game_id: f.game_id,
                    game_ip: f.game_ip,
                    game_port: f.game_port,
                    query_port: 0,
                    steam_id_lobby: 0,
                };
                Some((info, f.game_id != 0))
            },
            None => None,
        }
    }

    /// A friend's nickname as handed out; none for strangers and for friends
    /// without a nickname.
    pub fn player_nickname_buffer(&self, id: u64) -> (r: Option<Vec<u8>>)
        ensures
            r is Some <==> (self.friend(id) is Some && self.friend(id)->Some_0.nickname@.len() > 0),
            r matches Some(b) ==> b@ == c_string_in_buffer(
                utf8_bytes(self.friend(id)->Some_0.nickname@),
                NAME_BUFFER_SIZE as nat,
            ),
    {
        match self.find_friend(id) {
            Some(i) => {
                let nick = &self.friends[i].nickname;
                if nick.as_str().is_empty() {
                    None
                } else {
                    Some(copy_c_string(string_bytes(nick), NAME_BUFFER_SIZE))
                }
            },
            None => None,
        }
    }

    pub fn clan_count(&self) -> (n: i32)
        ensures
            n == self.clans@.len() as i32,
    {
        self.clans.len() as i32
    }

    /// The steam id of clan number `index`; 0 when there is none.
    pub fn clan_by_index(&self, index: i32) -> (id: u64)
        ensures
            id == (if (index as usize) < self.clans@.len() {
                self.clans@[index as usize as int].steam_id
            } else {
                0
            }),
    {
        let i = index as usize;
        if i < self.clans.len() {
            self.clans[i].steam_id
        } else {
            0
        }
    }

    /// A clan's name as handed out, "Unknown Clan" for unknown clans.
    pub fn clan_name_buffer(&self, id: u64) -> (b: Vec<u8>)
        ensures
            b@ == c_string_in_buffer(
                match self.clan(id) {
                    Some(c) => utf8_bytes(c.name@),
                    None => utf8_bytes("Unknown Clan"@),
                },
                NAME_BUFFER_SIZE as nat,
            ),
    {
        match self.find_clan(id) {
            Some(i) => copy_c_string(string_bytes(&self.clans[i].name), NAME_BUFFER_SIZE),
            None => {
                let unknown = String::from_str("Unknown Clan");
                copy_c_string(string_bytes(&unknown), NAME_BUFFER_SIZE)
            },
        }
    }

    /// A clan's tag as handed out (at most 63 bytes), empty for unknown clans.
    pub fn clan_tag_buffer(&self, id: u64) -> (b: Vec<u8>)
        ensures
            b@ == c_string_in_buffer(
                match self.clan(id) {
                    Some(c) => utf8_bytes(c.tag@),
                    None => Seq::empty(),
                },
                TAG_BUFFER_SIZE as nat,
            ),
    {
        match self.find_clan(id) {
            Some(i) => copy_c_string(string_bytes(&self.clans[i].tag), TAG_BUFFER_SIZE),
            None => {
                let empty: Vec<u8> = Vec::new();
                copy_c_string(empty.as_slice(), TAG_BUFFER_SIZE)
            },
        }
    }

    /// Sets a rich-presence key of the local user; an empty (or absent or
    /// unreadable) value removes the key. An unreadable key counts as empty.
    pub fn set_rich_presence(&mut self, key: Option<&str>, value: Option<&str>) -> (ok: bool)
        requires
            old(self).wf(),
        ensures
            ok,
            final(self).wf(),
            ({
                let k = match key {
                    Some(k) => k@,
                    None => Seq::<char>::empty(),
                };
                let v = match value {
                    Some(v) => v@,
                    None => Seq::<char>::empty(),
                };
                if v.len() == 0 {
                    final(self).rich_presence@ == old(self).rich_presence@.remove(k)
                } else {
                    final(self).rich_presence@.dom() == old(self).rich_presence@.dom().insert(k)
                        && final(self).rich_presence@[k]@ == v
                        && forall|k2: Seq<char>| k2 != k && #[trigger] old(self).rich_presence@.contains_key(k2)
                            ==> final(self).rich_presence@[k2] == old(self).rich_presence@[k2]
                }
            }),
            final(self).friends == old(self).friends,
            final(self).persona_name == old(self).persona_name,
    {
        let k = match key {
            Some(k) => String::from_str(k),
            None => String::new(),
        };
        let v = match value {
            Some(v) => String::from_str(v),
            None => String::new(),
        };
        if v.as_str().is_empty() {
            self.rich_presence.remove(&k);
        } else {
            self.rich_presence.insert(k, v);
        }
        true
    }

    /// Removes every rich-presence key of the local user.
    pub fn clear_rich_presence(&mut self)
        requires
            old(self).wf(),
        ensures
            final(self).wf(),
            final(self).rich_presence@ == Map::<Seq<char>, String>::empty(),
            final(self).friends == old(self).friends,
    {
        self.rich_presence.clear();
    }

    /// A friend's rich-presence value for `key` as handed out; an empty
    /// string when the friend or the key is unknown.
    pub fn friend_rich_presence_buffer(&self, id: u64, key: &str) -> (b: Vec<u8>)
        requires
            self.wf(),
        ensures
            b@ == (match self.friend(id) {
                Some(f) => if f.rich_presence@.contains_key(key@) {
                    c_string_in_buffer(utf8_bytes(f.rich_presence@[key@]@), NAME_BUFFER_SIZE as nat)
                } else {
                    seq![0u8]
                },
                None => seq![0u8],
            }),
    {
        let empty = vec![0u8];
        match self.find_friend(id) {
            Some(i) => {
                assert(self.friends@[i as int].rich_presence.wf());
                match self.friends[i].rich_presence.get(&String::from_str(key)) {
                    Some(v) => copy_c_string(string_bytes(v), NAME_BUFFER_SIZE),
                    None => {
                        assert(empty@ =~= seq![0u8]);
                        empty
                    },
                }
            },
            None => {
                assert(empty@ =~= seq![0u8]);
                empty
            },
        }
    }

    /// The number of rich-presence keys of a friend; 0 for strangers.
    pub fn friend_rich_presence_key_count(&self, id: u64) -> (n: i32)
        requires
            self.wf(),
        ensures
            n == (match self.friend(id) {
                Some(f) => f.rich_presence@.dom().len() as i32,
                None => 0,
            }),
    {
        match self.find_friend(id) {
            Some(i) => {
                assert(self.friends@[i as int].rich_presence.wf());
                self.friends[i].rich_presence.len() as i32
            },
            None => 0,
        }
    }

    /// Rich-presence key number `index` of a friend, as handed out: the key
    /// at that position of the list the friend's map keeps (each key once).
    pub fn friend_rich_presence_key_by_index(&self, id: u64, index: i32) -> (r: Option<Vec<u8>>)
        requires
            self.wf(),
        ensures
            r is Some <==> (self.friend(id) is Some && (index as usize) < self.friend(
                id,
            )->Some_0.rich_presence@.dom().len()),
            r matches Some(b) ==> exists|k: Seq<char>| #[trigger]
                self.friend(id)->Some_0.rich_presence@.contains_key(k) && b@ == c_string_in_buffer(
                    utf8_bytes(k),
                    NAME_BUFFER_SIZE as nat,
                ),
            r matches Some(b) ==> b@ == c_string_in_buffer(
                utf8_bytes(self.friend(id)->Some_0.rich_presence.entries@[index as usize as int].0@),
                NAME_BUFFER_SIZE as nat,
            ),
    {
        match self.find_friend(id) {
            Some(i) => {
                assert(self.friends@[i as int].rich_presence.wf());
                match self.friends[i].rich_presence.key_at(index as usize) {
                    Some(k) => Some(copy_c_string(string_bytes(k), NAME_BUFFER_SIZE)),
                    None => None,
                }
            },
            None => None,
        }
    }

    /// Records a message sent to a friend (an unreadable text is kept as an
    /// empty one), stamped with `timestamp`.
    pub fn reply_to_friend_message(&mut self, id: u64, message: Option<&str>, timestamp: u64) -> (ok: bool)
        ensures
            ok,
            final(self).chat_messages@.len() == old(self).chat_messages@.len() + 1,
            forall|i: int|
                0 <= i < old(self).chat_messages@.len() ==> final(self).chat_messages@[i]
                    == old(self).chat_messages@[i],
            ({
                let m = final(self).chat_messages@.last();
                &&& m.friend_id == id
                &&& m.timestamp == timestamp
                &&& m.message@ == match message {
                    Some(t) => t@,
                    None => Seq::<char>::empty(),
                }
            }),
            final(self).friends == old(self).friends,
            final(self).persona_name == old(self).persona_name,
            final(self).persona_state == old(self).persona_state,
            final(self).rich_presence == old(self).rich_presence,
            final(self).clans == old(self).clans,
            final(self).wf() == old(self).wf(),
    {
        let text = match message {
            Some(t) => String::from_str(t),
            None => String::new(),
        };
        self.chat_messages.push(ChatMessage { friend_id: id, message: text, timestamp });
        true
    }
}

/// A friend's rich-presence keys by index list each key once: the indices
/// below the key count name distinct keys, and every key has an index.
pub proof fn lemma_rich_presence_keys_enumerate(s: &FriendsState, id: u64)
    requires
        s.wf(),
        s.friend(id) is Some,
    ensures
        ({
            let m = s.friend(id)->Some_0.rich_presence;
            &&& m.entries@.len() == m@.dom().len()
            &&& forall|i: int, j: int|
                0 <= i < m.entries@.len() && 0 <= j < m.entries@.len() && i != j ==> #[trigger] m.entries@[i].0@
                    != #[trigger] m.entries@[j].0@
            &&& forall|k: Seq<char>| #[trigger]
                m@.contains_key(k) ==> exists|i: int| 0 <= i < m.entries@.len() && #[trigger] m.entries@[i].0@ == k
        }),
{
    let ids = friend_ids(s.friends@);
    let i = first_index(ids, id);
    assert(is_first_index(ids, id, i));
    assert(s.friends@[i].rich_presence.wf());
    crate::strmap::lemma_entries_enumerate_keys(&s.friends@[i].rich_presence);
}

/// A name shorter than the buffer reads back whole, followed by its
/// terminator; a longer one is cut to the buffer's size less one byte.
pub proof fn lemma_name_in_buffer(name: Seq<u8>)
    ensures
        name.len() < NAME_BUFFER_SIZE ==> c_string_in_buffer(name, NAME_BUFFER_SIZE as nat) == name.push(0u8),
        name.len() >= NAME_BUFFER_SIZE ==> c_string_in_buffer(name, NAME_BUFFER_SIZE as nat) == name.take(
            NAME_BUFFER_SIZE - 1,
        ).push(0u8),
{
    assert(name.take(name.len() as int) =~= name);
}

} // verus!
