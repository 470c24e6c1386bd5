//! The command-line tools' logic: the user config written for a ticket, the
//! base64 form of tickets, the identity a generated config gets, and the
//! app-ID finder's menu and table. Prompts, files and the network are the
//! callers'.
use crate::cbuf::{append_bytes, decimal, decimal_bytes, utf8_bytes};
use crate::protocol::BASE_STEAM_ID;
use crate::user::{base64_decode, base64_standard_decode};
use vstd::prelude::*;
use vstd::string::*;
use base64::Engine;

verus! {

/// The standard base64 text, with padding, of `data`.
pub uninterp spec fn base64_standard_encode(data: Seq<u8>) -> Seq<char>;

/// `base64::engine::general_purpose::STANDARD.encode(data)`. The result is
/// named `base64_standard_encode`; with padding it holds four characters for
/// every three bytes or part of three. The crate panics when that length
/// does not fit a `usize`, which `requires` leaves out.
#[verifier::external_body]
fn base64_encode(data: &[u8]) -> (s: String)
    requires
        4 * ((data@.len() + 2) / 3) <= usize::MAX,
    ensures
        s@ == base64_standard_encode(data@),
        s@.len() == 4 * ((data@.len() + 2) / 3),
{
    base64::engine::general_purpose::STANDARD.encode(data)
}

/// A ticket's text form: its bytes in standard base64.
pub fn ticket_text(ticket_data: &[u8]) -> (s: String)
    requires
        4 * ((ticket_data@.len() + 2) / 3) <= usize::MAX,
    ensures
        s@ == base64_standard_encode(ticket_data@),
        s@.len() == 4 * ((ticket_data@.len() + 2) / 3),
{
    base64_encode(ticket_data)
}

/// The length of the ticket that a base64 text holds; `None` when the text
/// does not decode.
pub fn ticket_length(ticket: &str) -> (n: Option<usize>)
    ensures
        match base64_standard_decode(utf8_bytes(ticket@)) {
            Some(d) => n == Some(d.len() as usize),
            None => n is None,
        },
{
    match base64_decode(ticket.as_bytes()) {
        Some(bytes) => Some(bytes.len()),
        None => None,
    }
}

/// `[user::general]\naccount_steamid=`
pub open spec fn config_head() -> Seq<u8> {
    seq![
        91u8, 117, 115, 101, 114, 58, 58, 103, 101, 110, 101, 114, 97, 108, 93, 10, 97, 99, 99, 111,
        117, 110, 116, 95, 115, 116, 101, 97, 109, 105, 100, 61,
    ]
}

/// `\nticket=`
pub open spec fn ticket_key() -> Seq<u8> {
    seq![10u8, 116, 105, 99, 107, 101, 116, 61]
}

/// The user config saved for a ticket: the section header, the account's
/// Steam ID and the ticket, one per line.
pub open spec fn user_config(steam_id: u64, ticket: Seq<u8>) -> Seq<u8> {
    config_head() + decimal(steam_id as nat) + ticket_key() + ticket + seq![10u8]
}

/// The bytes of the user config for `steam_id` and `ticket`.
pub fn user_config_text(steam_id: u64, ticket: &str) -> (out: Vec<u8>)
    ensures
        out@ == user_config(steam_id, utf8_bytes(ticket@)),
{
    let mut out: Vec<u8> = vec![
        91u8, 117, 115, 101, 114, 58, 58, 103, 101, 110, 101, 114, 97, 108, 93, 10, 97, 99, 99, 111,
        117, 110, 116, 95, 115, 116, 101, 97, 109, 105, 100, 61,
    ];
    let digits = decimal_bytes(steam_id);
    append_bytes(&mut out, digits.as_slice());
    let key: Vec<u8> = vec![10u8, 116, 105, 99, 107, 101, 116, 61];
    append_bytes(&mut out, key.as_slice());
    append_bytes(&mut out, ticket.as_bytes());
    out.push(10u8);
    assert(out@ =~= user_config(steam_id, utf8_bytes(ticket@)));
    out
}

/// `Player<n>`, the name a generated config gives, with `n` below 10000
/// drawn from `random`.
pub open spec fn generated_username(random: u32) -> Seq<u8> {
    seq![80u8, 108, 97, 121, 101, 114] + decimal((random % 10000) as nat)
}

/// The name a generated config gives for the random value `random`.
pub fn generated_username_with(random: u32) -> (name: Vec<u8>)
    ensures
        name@ == generated_username(random),
{
    let mut name: Vec<u8> = vec![80u8, 108, 97, 121, 101, 114];
    let digits = decimal_bytes((random % 10000) as u64);
    append_bytes(&mut name, digits.as_slice());
    assert(name@ =~= generated_username(random));
    name
}

/// The Steam ID a generated config gives for the random value `random`.
pub fn generated_steam_id_with(random: u64) -> (id: u64)
    ensures
        id == BASE_STEAM_ID + random % 1000000,
{
    BASE_STEAM_ID + random % 1000000
}

// ---------------------------------------------------------------------------
// App ID finder
// ---------------------------------------------------------------------------

/// Whether `c` is white space in Unicode's sense (`char::is_whitespace`).
pub open spec fn is_white_space(c: char) -> bool {
    let n = c as u32;
    (9 <= n <= 13) || n == 32 || n == 0x85 || n == 0xa0 || n == 0x1680 || (0x2000 <= n <= 0x200a)
        || n == 0x2028 || n == 0x2029 || n == 0x202f || n == 0x205f || n == 0x3000
}

fn white_space(c: char) -> (r: bool)
    ensures
        r == is_white_space(c),
{
    let n = c as u32;
    (9 <= n && n <= 13) || n == 32 || n == 0x85 || n == 0xa0 || n == 0x1680 || (0x2000 <= n && n
        <= 0x200a) || n == 0x2028 || n == 0x2029 || n == 0x202f || n == 0x205f || n == 0x3000
}

/// Whether `[a, b)` is what trimming white space from both ends of `s`
/// keeps.
pub open spec fn trim_bounds(s: Seq<char>, a: int, b: int) -> bool {
    &&& 0 <= a <= b <= s.len()
    &&& forall|i: int| 0 <= i < a ==> is_white_space(#[trigger] s[i])
    &&& forall|i: int| b <= i < s.len() ==> is_white_space(#[trigger] s[i])
    &&& a < b ==> !is_white_space(s[a]) && !is_white_space(s[b - 1])
    &&& a == b ==> b == s.len()
}

/// The char positions that trimming white space from both ends keeps.
pub fn trimmed_bounds(s: &str) -> (r: (usize, usize))
    ensures
        trim_bounds(s@, r.0 as int, r.1 as int),
{
    let n = s.unicode_len();
    let mut a: usize = 0;
    while a < n && white_space(s.get_char(a))
        invariant
            n == s@.len(),
            a <= n,
            forall|i: int| 0 <= i < a ==> is_white_space(#[trigger] s@[i]),
        decreases n - a,
    {
        a = a + 1;
    }
    if a == n {
        return (n, n);
    }
    let mut b: usize = n;
    while b > a && white_space(s.get_char(b - 1))
        invariant
            n == s@.len(),
            a < n,
            a <= b <= n,
            !is_white_space(s@[a as int]),
            forall|i: int| b <= i < n ==> is_white_space(#[trigger] s@[i]),
        decreases b,
    {
        b = b - 1;
    }
    (a, b)
}

/// The app-ID finder's menu.
#[derive(Clone, Copy, PartialEq, Eq, Structural)]
pub enum MenuChoice {
    SearchByName,
    FromExecutable,
    ListCommonGames,
    Exit,
    Invalid,
}

/// The choice a line of input makes: `1` to `4` once trimmed, else invalid.
pub open spec fn choice_of(line: Seq<char>) -> MenuChoice {
    if line.len() != 1 {
        MenuChoice::Invalid
    } else if line[0] == '1' {
        MenuChoice::SearchByName
    } else if line[0] == '2' {
        MenuChoice::FromExecutable
    } else if line[0] == '3' {
        MenuChoice::ListCommonGames
    } else if line[0] == '4' {
        MenuChoice::Exit
    } else {
        MenuChoice::Invalid
    }
}

/// The menu choice that a line of input makes.
pub fn menu_choice(input: &str) -> (c: MenuChoice)
    ensures
        exists|a: int, b: int|
            trim_bounds(input@, a, b) && c == #[trigger] choice_of(input@.subrange(a, b)),
{
    let (a, b) = trimmed_bounds(input);
    let ghost t = input@.subrange(a as int, b as int);
    let c = if b - a != 1 {
        MenuChoice::Invalid
    } else {
        let ch = input.get_char(a);
        assert(t.len() == 1 && t[0] == ch);
        if ch == '1' {
            MenuChoice::SearchByName
        } else if ch == '2' {
            MenuChoice::FromExecutable
        } else if ch == '3' {
            MenuChoice::ListCommonGames
        } else if ch == '4' {
            MenuChoice::Exit
        } else {
            MenuChoice::Invalid
        }
    };
    assert(c == choice_of(input@.subrange(a as int, b as int)));
    c
}

/// Whether a line is empty once trimmed.
pub fn is_blank(input: &str) -> (r: bool)
    ensures
        r == (forall|i: int| 0 <= i < input@.len() ==> is_white_space(#[trigger] input@[i])),
{
    let (a, b) = trimmed_bounds(input);
    if a == b {
        true
    } else {
        assert(!is_white_space(input@[a as int]));
        false
    }
}

/// The app IDs of the common games, in the order the table lists them.
pub open spec fn common_game_ids() -> Seq<u32> {
    seq![
        730u32, 570, 440, 550, 620, 220, 4000, 252490, 346110, 105600, 413150, 322330, 381210,
        218620, 271590, 1245620, 374320, 814380, 1091500, 292030, 489830, 377160, 1174180, 582010,
        1196590, 892970, 945360, 1097150, 739630, 1966720, 526870, 427520, 294100, 108600, 251570,
        480,
    ]
}

/// The names of the common games, in the order the table lists them.
pub open spec fn common_game_names() -> Seq<Seq<char>> {
    seq![
        "Counter-Strike 2"@,
        "Dota 2"@,
        "Team Fortress 2"@,
        "Left 4 Dead 2"@,
        "Portal 2"@,
        "Half-Life 2"@,
        "Garry's Mod"@,
        "Rust"@,
        "ARK: Survival Evolved"@,
        "Terraria"@,
        "Stardew Valley"@,
        "Don't Starve Together"@,
        "Dead by Daylight"@,
        "PAYDAY 2"@,
        "GTA V"@,
        "Elden Ring"@,
        "Dark Souls III"@,
        "Sekiro"@,
        "Cyberpunk 2077"@,
        "The Witcher 3"@,
        "Skyrim Special Edition"@,
        "Fallout 4"@,
        "Red Dead Redemption 2"@,
        "Monster Hunter: World"@,
        "Resident Evil Village"@,
        "Valheim"@,
        "Among Us"@,
        "Fall Guys"@,
        "Phasmophobia"@,
        "Lethal Company"@,
        "Satisfactory"@,
        "Factorio"@,
        "Rimworld"@,
        "Project Zomboid"@,
        "7 Days to Die"@,
        "Spacewar (Test)"@,
    ]
}

/// The common games' names and app IDs, in the order the table lists them.
pub fn common_games() -> (games: Vec<(String, u32)>)
    ensures
        games@.len() == common_game_ids().len(),
        forall|i: int| 0 <= i < games@.len() ==> #[trigger] games@[i].1 == common_game_ids()[i],
        forall|i: int| 0 <= i < games@.len() ==> #[trigger] games@[i].0@ == common_game_names()[i],
{
    let names: [&str; 36] = [
        "Counter-Strike 2",
        "Dota 2",
        "Team Fortress 2",
        "Left 4 Dead 2",
        "Portal 2",
        "Half-Life 2",
        "Garry's Mod",
        "Rust",
        "ARK: Survival Evolved",
        "Terraria",
        "Stardew Valley",
        "Don't Starve Together",
        "Dead by Daylight",
        "PAYDAY 2",
        "GTA V",
        "Elden Ring",
        "Dark Souls III",
        "Sekiro",
        "Cyberpunk 2077",
        "The Witcher 3",
        "Skyrim Special Edition",
        "Fallout 4",
        "Red Dead Redemption 2",
        "Monster Hunter: World",
        "Resident Evil Village",
        "Valheim",
        "Among Us",
        "Fall Guys",
        "Phasmophobia",
        "Lethal Company",
        "Satisfactory",
        "Factorio",
        "Rimworld",
        "Project Zomboid",
        "7 Days to Die",
        "Spacewar (Test)",
    ];
    let ids: [u32; 36] = [
        730, 570, 440, 550, 620, 220, 4000, 252490, 346110, 105600, 413150, 322330, 381210, 218620,
        271590, 1245620, 374320, 814380, 1091500, 292030, 489830, 377160, 1174180, 582010, 1196590,
        892970, 945360, 1097150, 739630, 1966720, 526870, 427520, 294100, 108600, 251570, 480,
    ];
    assert(ids@ =~= common_game_ids());
    assert(forall|j: int| 0 <= j < 36 ==> #[trigger] names@[j]@ == common_game_names()[j]);
    let mut games: Vec<(String, u32)> = Vec::new();
    let mut i: usize = 0;
    while i < 36
        invariant
            i <= 36,
            ids@ == common_game_ids(),
            games@.len() == i,
            forall|j: int| 0 <= j < i ==> #[trigger] games@[j].1 == common_game_ids()[j],
            forall|j: int| 0 <= j < 36 ==> #[trigger] names@[j]@ == common_game_names()[j],
            forall|j: int| 0 <= j < i ==> #[trigger] games@[j].0@ == common_game_names()[j],
        decreases 36 - i,
    {
        games.push((String::from_str(names[i]), ids[i]));
        i = i + 1;
    }
    games
}

/// The user config holds the account's Steam ID in base 10: it is the
/// section header, digits that read back as the Steam ID, the ticket key,
/// the ticket and a line end.
pub proof fn lemma_user_config_names_account(steam_id: u64, ticket: Seq<u8>)
    ensures
        exists|d: Seq<u8>|
            #![trigger crate::cbuf::decimal_value(d)]
            user_config(steam_id, ticket) == config_head() + d + ticket_key() + ticket + seq![10u8]
                && d.len() >= 1 && crate::cbuf::all_decimal_digits(d) && crate::cbuf::decimal_value(d)
                == steam_id,
{
    crate::cbuf::lemma_decimal_reads_back(steam_id as nat);
    let d = decimal(steam_id as nat);
    assert(crate::cbuf::decimal_value(d) == steam_id);
}

/// A generated name is `Player` followed by a number below 10000 in base 10,
/// the random value's last four decimal places.
pub proof fn lemma_generated_username_number(random: u32)
    ensures
        generated_username(random).take(6) == seq![80u8, 108, 97, 121, 101, 114],
        crate::cbuf::all_decimal_digits(generated_username(random).skip(6)),
        crate::cbuf::decimal_value(generated_username(random).skip(6)) == random % 10000,
        crate::cbuf::decimal_value(generated_username(random).skip(6)) < 10000,
{
    crate::cbuf::lemma_decimal_reads_back((random % 10000) as nat);
    assert(generated_username(random).take(6) =~= seq![80u8, 108, 97, 121, 101, 114]);
    assert(generated_username(random).skip(6) =~= decimal((random % 10000) as nat));
}

/// The menu answers: a line that trims to `1`, `2`, `3` or `4` chooses search
/// by name, search from an executable, the table of common games, or exit;
/// any other line is invalid.
pub proof fn lemma_menu_choices(line: Seq<char>)
    ensures
        (choice_of(line) == MenuChoice::SearchByName) <==> line == seq!['1'],
        (choice_of(line) == MenuChoice::FromExecutable) <==> line == seq!['2'],
        (choice_of(line) == MenuChoice::ListCommonGames) <==> line == seq!['3'],
        (choice_of(line) == MenuChoice::Exit) <==> line == seq!['4'],
        (choice_of(line) == MenuChoice::Invalid) <==> !(line == seq!['1'] || line == seq!['2'] || line
            == seq!['3'] || line == seq!['4']),
{
    if line.len() == 1 {
        assert(line == seq![line[0]]);
    }
}

} // verus!


