//! The emulated ISteamUser interface: auth session tickets signed with
//! HMAC-SHA256, the voice buffer, the encrypted app ticket and the store
//! auth URL. The Steam ID, the clock and the network are the caller's; they
//! come in as arguments.
use crate::cbuf::{append_bytes, c_string_in_buffer, copy_c_string, copy_prefix, decimal, decimal_bytes, hex_bytes, hex_lower, truncated, utf8_bytes};
use crate::rng::{random_bytes_16, random_u32, random_u64};
use std::collections::HashMap;
use vstd::prelude::*;
use vstd::string::*;
use hmac::Mac;
use base64::Engine;

verus! {

broadcast use vstd::std_specs::hash::group_hash_axioms;

// ---------------------------------------------------------------------------
// Outside crates
// ---------------------------------------------------------------------------

/// The HMAC-SHA256 of `data` under `key`.
pub uninterp spec fn hmac_sha256(key: Seq<u8>, data: Seq<u8>) -> Seq<u8>;

/// `hmac::Hmac<sha2::Sha256>`: `new_from_slice(key)` (which accepts a key of
/// any length), `update(data)`, `finalize().into_bytes()`. The result is the
/// HMAC of `data` under `key`, named `hmac_sha256`, and is 32 bytes long (the
/// SHA-256 output size).
#[verifier::external_body]
fn hmac_sha256_sign(key: &[u8], data: &[u8]) -> (sig: Vec<u8>)
    ensures
        sig@ == hmac_sha256(key@, data@),
        sig@.len() == 32,
{
    let mut mac = <hmac::Hmac<sha2::Sha256> as Mac>::new_from_slice(key).unwrap();
    mac.update(data);
    mac.finalize().into_bytes().to_vec()
}

/// What the standard base64 alphabet, with padding, decodes `text` to; `None`
/// when `text` is not valid base64.
pub uninterp spec fn base64_standard_decode(text: Seq<u8>) -> Option<Seq<u8>>;

/// `base64::engine::general_purpose::STANDARD.decode(text)`, with the error
/// turned into `None`. The result is named `base64_standard_decode`.
#[verifier::external_body]
pub(crate) fn base64_decode(text: &[u8]) -> (r: Option<Vec<u8>>)
    ensures
        match base64_standard_decode(text@) {
            Some(d) => r matches Some(v) && v@ == d,
            None => r is None,
        },
{
    match base64::engine::general_purpose::STANDARD.decode(text) {
        Ok(v) => Some(v),
        Err(_) => None,
    }
}

// ---------------------------------------------------------------------------
// Little-endian encodings
// ---------------------------------------------------------------------------

/// `n` as four little-endian bytes.
pub open spec fn le32(n: u32) -> Seq<u8> {
    seq![
        (n % 0x100) as u8,
        (n / 0x100 % 0x100) as u8,
        (n / 0x10000 % 0x100) as u8,
        (n / 0x1000000 % 0x100) as u8,
    ]
}

/// `n` as eight little-endian bytes.
pub open spec fn le64(n: u64) -> Seq<u8> {
    le32((n % 0x1_0000_0000) as u32) + le32((n / 0x1_0000_0000) as u32)
}

/// The number that four little-endian bytes hold.
pub open spec fn le32_value(b: Seq<u8>) -> int {
    b[0] + b[1] * 0x100 + b[2] * 0x10000 + b[3] * 0x1000000
}

/// The number that eight little-endian bytes hold.
pub open spec fn le64_value(b: Seq<u8>) -> int {
    le32_value(b.subrange(0, 4)) + le32_value(b.subrange(4, 8)) * 0x1_0000_0000
}

/// Four little-endian bytes read back as the number they were made from.
pub proof fn lemma_le32_round_trip(n: u32)
    ensures
        le32(n).len() == 4,
        le32_value(le32(n)) == n,
{
    assert(le32_value(le32(n)) == n) by (nonlinear_arith)
        requires
            le32(n)[0] == (n % 0x100) as u8,
            le32(n)[1] == (n / 0x100 % 0x100) as u8,
            le32(n)[2] == (n / 0x10000 % 0x100) as u8,
            le32(n)[3] == (n / 0x1000000 % 0x100) as u8,
            le32_value(le32(n)) == le32(n)[0] + le32(n)[1] * 0x100 + le32(n)[2] * 0x10000 + le32(n)[3]
                * 0x1000000,
    ;
}

/// Eight little-endian bytes read back as the number they were made from.
pub proof fn lemma_le64_round_trip(n: u64)
    ensures
        le64(n).len() == 8,
        le64_value(le64(n)) == n,
{
    let lo = (n % 0x1_0000_0000) as u32;
    let hi = (n / 0x1_0000_0000) as u32;
    lemma_le32_round_trip(lo);
    lemma_le32_round_trip(hi);
    assert(le64(n).subrange(0, 4) =~= le32(lo));
    assert(le64(n).subrange(4, 8) =~= le32(hi));
    assert(lo + hi * 0x1_0000_0000 == n) by (nonlinear_arith)
        requires
            lo == n % 0x1_0000_0000,
            hi == n / 0x1_0000_0000,
    ;
}

/// Appends `n` as four little-endian bytes.
pub fn push_le32(out: &mut Vec<u8>, n: u32)
    ensures
        final(out)@ == old(out)@ + le32(n),
{
    out.push((n % 0x100) as u8);
    out.push((n / 0x100 % 0x100) as u8);
    out.push((n / 0x10000 % 0x100) as u8);
    out.push((n / 0x1000000 % 0x100) as u8);
    assert(out@ =~= old(out)@ + le32(n));
}

/// Appends `n` as eight little-endian bytes.
pub fn push_le64(out: &mut Vec<u8>, n: u64)
    ensures
        final(out)@ == old(out)@ + le64(n),
{
    let ghost start = out@;
    push_le32(out, (n % 0x1_0000_0000) as u32);
    push_le32(out, (n / 0x1_0000_0000) as u32);
    assert(out@ =~= start + le64(n));
}

// ---------------------------------------------------------------------------
// Auth session tickets
// ---------------------------------------------------------------------------

/// The version word that opens every ticket.
pub const TICKET_VERSION: u32 = 0x00010000;

/// The length of a ticket: a 44-byte body and a 32-byte signature.
pub const TICKET_LEN: usize = 76;

/// `oracle_steam_secret_<app_id>`: the key a ticket for `app_id` is signed
/// with.
pub open spec fn ticket_secret(app_id: u32) -> Seq<u8> {
    seq![
        111u8, 114, 97, 99, 108, 101, 95, 115, 116, 101, 97, 109, 95, 115, 101, 99, 114, 101, 116,
        95,
    ] + decimal(app_id as nat)
}

/// The signed part of a ticket: version, Steam ID, app ID, timestamp,
/// session ID and 16 random bytes.
pub open spec fn ticket_body(steam_id: u64, app_id: u32, timestamp: u64, session_id: u32, nonce: Seq<u8>) -> Seq<u8> {
    le32(TICKET_VERSION) + le64(steam_id) + le32(app_id) + le64(timestamp) + le32(session_id) + nonce
}

/// A whole ticket: its body, then the body's HMAC-SHA256 under the app's
/// secret.
pub open spec fn ticket_bytes(steam_id: u64, app_id: u32, timestamp: u64, session_id: u32, nonce: Seq<u8>) -> Seq<u8> {
    let body = ticket_body(steam_id, app_id, timestamp, session_id, nonce);
    body + hmac_sha256(ticket_secret(app_id), body)
}

/// The key that tickets for `app_id` are signed with.
fn ticket_secret_bytes(app_id: u32) -> (key: Vec<u8>)
    ensures
        key@ == ticket_secret(app_id),
{
    let mut key: Vec<u8> = vec![
        111u8, 114, 97, 99, 108, 101, 95, 115, 116, 101, 97, 109, 95, 115, 101, 99, 114, 101, 116,
        95,
    ];
    let digits = decimal_bytes(app_id as u64);
    append_bytes(&mut key, digits.as_slice());
    assert(key@ =~= ticket_secret(app_id));
    key
}

/// Builds a ticket from its fields, the session ID and the 16 random bytes.
pub fn build_auth_ticket_with(
    steam_id: u64,
    app_id: u32,
    timestamp: u64,
    session_id: u32,
    nonce: &[u8],
) -> (t: Vec<u8>)
    requires
        nonce@.len() == 16,
    ensures
        t@ == ticket_bytes(steam_id, app_id, timestamp, session_id, nonce@),
        t@.len() == TICKET_LEN,
{
    let mut body: Vec<u8> = Vec::new();
    push_le32(&mut body, TICKET_VERSION);
    push_le64(&mut body, steam_id);
    push_le32(&mut body, app_id);
    push_le64(&mut body, timestamp);
    push_le32(&mut body, session_id);
    append_bytes(&mut body, nonce);
    assert(body@ =~= ticket_body(steam_id, app_id, timestamp, session_id, nonce@));
    let key = ticket_secret_bytes(app_id);
    let signature = hmac_sha256_sign(key.as_slice(), body.as_slice());
    let ghost b = body@;
    append_bytes(&mut body, signature.as_slice());
    assert(body@ =~= ticket_bytes(steam_id, app_id, timestamp, session_id, nonce@));
    body
}

/// Builds a ticket with a random session ID and random bytes: 76 bytes,
/// whose signature is the HMAC of its first 44 under the app's secret.
pub fn build_auth_ticket(steam_id: u64, app_id: u32, timestamp: u64) -> (t: Vec<u8>)
    ensures
        exists|session_id: u32, nonce: Seq<u8>|
            nonce.len() == 16 && t@ == #[trigger] ticket_bytes(steam_id, app_id, timestamp, session_id, nonce),
        t@.len() == TICKET_LEN,
{
    let session_id = random_u32();
    let nonce = random_bytes_16();
    let t = build_auth_ticket_with(steam_id, app_id, timestamp, session_id, nonce.as_slice());
    assert(t@ == ticket_bytes(steam_id, app_id, timestamp, session_id, nonce@));
    t
}

/// A ticket handed out by `GetAuthSessionTicket`.
pub struct AuthTicket {
    pub handle: u32,
    pub steam_id: u64,
    pub app_id: u32,
    pub data: Vec<u8>,
    pub timestamp: u64,
}

/// The callback that answers an encrypted app ticket request.
#[derive(Clone, Copy, Debug)]
pub struct EncryptedAppTicketResponse_t {
    pub result: i32,
}

impl EncryptedAppTicketResponse_t {
    /// `k_iSteamUserCallbacks + 54`
    pub fn callback_id() -> (id: i32)
        ensures
            id == 154,
    {
        154
    }
}

/// `k_EVoiceResultOK`
pub const VOICE_OK: i32 = 1;

/// `k_EVoiceResultNoData`
pub const VOICE_NO_DATA: i32 = 0;

/// The result of `BeginAuthSession`: `InvalidTicket` (3) for a missing or
/// empty ticket, else `OK` (0).
pub fn begin_auth_session(has_ticket: bool, ticket_size: i32) -> (r: i32)
    ensures
        r == if !has_ticket || ticket_size < 1 {
            3i32
        } else {
            0i32
        },
{
    if !has_ticket || ticket_size < 1 {
        3
    } else {
        0
    }
}

/// The bytes that decompressing `compressed_size` bytes of voice writes into
/// a buffer of `dest_buffer_size`: twice as many, up to the buffer's size.
pub fn decompressed_voice_size(compressed_size: u32, dest_buffer_size: u32) -> (n: u32)
    requires
        compressed_size * 2 <= u32::MAX,
    ensures
        n == if compressed_size * 2 <= dest_buffer_size {
            (compressed_size * 2) as u32
        } else {
            dest_buffer_size
        },
{
    let doubled = compressed_size * 2;
    if doubled <= dest_buffer_size {
        doubled
    } else {
        dest_buffer_size
    }
}

/// Whether an IPv4 address lies in a private range: 10/8, 172.16/12 or
/// 192.168/16.
pub open spec fn private_ipv4(o: Seq<u8>) -> bool {
    o[0] == 10 || (o[0] == 172 && 16 <= o[1] <= 31) || (o[0] == 192 && o[1] == 168)
}

pub fn is_private_ipv4(octets: [u8; 4]) -> (r: bool)
    ensures
        r == private_ipv4(octets@),
{
    octets[0] == 10 || (octets[0] == 172 && octets[1] >= 16 && octets[1] <= 31) || (octets[0] == 192
        && octets[1] == 168)
}

/// `https://store.steampowered.com/login/?redir=`
pub open spec fn store_login_prefix() -> Seq<u8> {
    utf8_bytes("https://store.steampowered.com/login/?redir="@)
}

/// `&steamid=`
pub open spec fn steamid_param() -> Seq<u8> {
    seq![38u8, 115, 116, 101, 97, 109, 105, 100, 61]
}

/// `&token=`
pub open spec fn token_param() -> Seq<u8> {
    seq![38u8, 116, 111, 107, 101, 110, 61]
}

/// The store auth URL for redirect `url`, account `steam_id` and token
/// `token` (written in lower-case hexadecimal).
pub open spec fn store_auth_url(url: Seq<u8>, steam_id: u64, token: u64) -> Seq<u8> {
    store_login_prefix() + url + steamid_param() + decimal(steam_id as nat) + token_param()
        + hex_lower(token as nat)
}

/// `about:blank`, the redirect used when the caller gives none.
pub open spec fn blank_page() -> Seq<u8> {
    seq![97u8, 98, 111, 117, 116, 58, 98, 108, 97, 110, 107]
}

/// The redirect a store auth URL carries: the caller's, else `about:blank`.
pub open spec fn redirect_of(url: Option<&str>) -> Seq<u8> {
    match url {
        Some(u) => utf8_bytes(u@),
        None => blank_page(),
    }
}

/// The state behind ISteamUser.
pub struct UserState {
    pub tickets: HashMap<u32, AuthTicket>,
    pub next_ticket_handle: u32,
    pub voice_recording: bool,
    pub voice_buffer: Vec<u8>,
    pub encrypted_ticket_request: u64,
    pub encrypted_ticket: Option<Vec<u8>>,
    pub store_auth_url: Vec<u8>,
}

impl UserState {
    /// Tickets sit under their own handles, drawn before the counter's value;
    /// the voice buffer is small enough for its doubled size to fit 32 bits.
    pub open spec fn wf(&self) -> bool {
        &&& forall|h: u32| #[trigger]
            self.tickets@.contains_key(h) ==> self.tickets@[h].handle == h && h < self.next_ticket_handle
        &&& self.next_ticket_handle >= 1
        &&& self.voice_buffer@.len() < 0x8000_0000
    }

    /// Tickets by handle: the bytes each holds.
    pub open spec fn tickets_view(&self) -> Map<u32, Seq<u8>> {
        self.tickets@.map_values(|t: AuthTicket| t.data@)
    }

    pub fn new() -> (s: Self)
        ensures
            s.wf(),
            s.tickets_view() == Map::<u32, Seq<u8>>::empty(),
            s.next_ticket_handle == 1,
            !s.voice_recording,
            s.voice_buffer@.len() == 0,
            s.encrypted_ticket_request == 0,
            s.encrypted_ticket is None,
            s.store_auth_url@.len() == 0,
    {
        let s = UserState {
            tickets: HashMap::new(),
            next_ticket_handle: 1,
            voice_recording: false,
            voice_buffer: Vec::new(),
            encrypted_ticket_request: 0,
            encrypted_ticket: None,
            store_auth_url: Vec::new(),
        };
        assert(s.tickets_view() =~= Map::<u32, Seq<u8>>::empty());
        s
    }

    /// Starts recording: the voice buffer is emptied.
    pub fn start_voice_recording(&mut self)
        requires
            old(self).wf(),
        ensures
            final(self).wf(),
            final(self).voice_recording,
            final(self).voice_buffer@.len() == 0,
            final(self).tickets == old(self).tickets,
            final(self).next_ticket_handle == old(self).next_ticket_handle,
    {
        self.voice_recording = true;
        self.voice_buffer.clear();
    }

    pub fn stop_voice_recording(&mut self)
        requires
            old(self).wf(),
        ensures
            final(self).wf(),
            !final(self).voice_recording,
            final(self).voice_buffer == old(self).voice_buffer,
            final(self).tickets == old(self).tickets,
            final(self).next_ticket_handle == old(self).next_ticket_handle,
    {
        self.voice_recording = false;
    }

    /// The voice waiting: its compressed size, twice that uncompressed, and
    /// `VOICE_OK` when there is any, else `VOICE_NO_DATA`.
    pub fn get_available_voice(&self) -> (r: (i32, u32, u32))
        requires
            self.wf(),
        ensures
            r.1 == self.voice_buffer@.len(),
            r.2 == 2 * self.voice_buffer@.len(),
            r.0 == if self.voice_buffer@.len() > 0 {
                VOICE_OK
            } else {
                VOICE_NO_DATA
            },
    {
        let size = self.voice_buffer.len() as u32;
        let result = if size > 0 {
            VOICE_OK
        } else {
            VOICE_NO_DATA
        };
        (result, size, size * 2)
    }

    /// Reads voice into a buffer of `dest_buffer_size` bytes: the bytes
    /// copied, and the uncompressed size reported for a buffer of
    /// `uncompressed_buffer_size` bytes (twice the bytes copied, up to that
    /// size). The result is always `VOICE_OK`.
    pub fn get_voice(&self, dest_buffer_size: u32, uncompressed_buffer_size: u32) -> (r: (Vec<u8>, u32))
        requires
            self.wf(),
        ensures
            r.0@ == truncated(self.voice_buffer@, dest_buffer_size as nat),
            r.1 == if 2 * r.0@.len() <= uncompressed_buffer_size {
                2 * r.0@.len()
            } else {
                uncompressed_buffer_size as nat
            },
    {
        let copied = copy_prefix(self.voice_buffer.as_slice(), dest_buffer_size as usize);
        let to_copy = copied.len() as u32;
        let doubled = to_copy * 2;
        let uncompressed = if doubled <= uncompressed_buffer_size {
            doubled
        } else {
            uncompressed_buffer_size
        };
        (copied, uncompressed)
    }

    /// Hands out a ticket for `steam_id` and `app_id` at `timestamp` (seconds
    /// since the Unix epoch) under a fresh handle, and returns it with the
    /// bytes copied into a buffer of `max_ticket` bytes. A buffer under one
    /// byte gives the invalid handle 0 and changes nothing.
    pub fn get_auth_session_ticket(&mut self, max_ticket: i32, steam_id: u64, app_id: u32, timestamp: u64) -> (r: (u32, Vec<u8>))
        requires
            old(self).wf(),
            old(self).next_ticket_handle < u32::MAX,
        ensures
            final(self).wf(),
            max_ticket < 1 ==> r.0 == 0 && r.1@.len() == 0 && *final(self) == *old(self),
            max_ticket >= 1 ==> {
                let h = r.0;
                &&& h == old(self).next_ticket_handle
                &&& !old(self).tickets@.contains_key(h)
                &&& final(self).next_ticket_handle == h + 1
                &&& final(self).tickets_view().dom() == old(self).tickets_view().dom().insert(h)
                &&& forall|k: u32|
                    #![trigger final(self).tickets_view()[k]]
                    old(self).tickets_view().contains_key(k) ==> final(self).tickets_view()[k]
                        == old(self).tickets_view()[k]
                &&& exists|session_id: u32, nonce: Seq<u8>|
                    nonce.len() == 16 && final(self).tickets_view()[h] == #[trigger] ticket_bytes(
                        steam_id,
                        app_id,
                        timestamp,
                        session_id,
                        nonce,
                    )
                &&& r.1@ == truncated(final(self).tickets_view()[h], max_ticket as nat)
            },
    {
        if max_ticket < 1 {
            return (0, Vec::new());
        }
        let h = self.next_ticket_handle;
        self.next_ticket_handle = h + 1;
        let data = build_auth_ticket(steam_id, app_id, timestamp);
        let copied = copy_prefix(data.as_slice(), max_ticket as usize);
        let ghost d = data@;
        let ghost before = old(self).tickets_view();
        self.tickets.insert(h, AuthTicket { handle: h, steam_id, app_id, data, timestamp });
        assert(self.tickets_view() =~= before.insert(h, d));
        (h, copied)
    }

    /// Cancels ticket `handle` (nothing happens when there is none).
    pub fn cancel_auth_ticket(&mut self, handle: u32)
        requires
            old(self).wf(),
        ensures
            final(self).wf(),
            final(self).tickets_view() == old(self).tickets_view().remove(handle),
            final(self).next_ticket_handle == old(self).next_ticket_handle,
    {
        self.tickets.remove(&handle);
        assert(self.tickets_view() =~= old(self).tickets_view().remove(handle));
    }

    /// Records an encrypted-ticket request; its handle is the random value
    /// with the lowest bit set.
    pub fn record_encrypted_ticket_request(&mut self, random: u64) -> (h: u64)
        requires
            old(self).wf(),
        ensures
            final(self).wf(),
            h == random | 1,
            final(self).encrypted_ticket_request == h,
            final(self).encrypted_ticket == old(self).encrypted_ticket,
            final(self).tickets == old(self).tickets,
            final(self).next_ticket_handle == old(self).next_ticket_handle,
    {
        let h = random | 1;
        self.encrypted_ticket_request = h;
        h
    }

    /// Keeps the encrypted app ticket that arrived as base64 text; false,
    /// changing nothing, when the text does not decode.
    pub fn store_encrypted_ticket(&mut self, ticket_base64: &str) -> (ok: bool)
        requires
            old(self).wf(),
        ensures
            final(self).wf(),
            ok == base64_standard_decode(utf8_bytes(ticket_base64@)) is Some,
            ok ==> (final(self).encrypted_ticket matches Some(t) && t@ == base64_standard_decode(
                utf8_bytes(ticket_base64@),
            )->0),
            !ok ==> final(self).encrypted_ticket == old(self).encrypted_ticket,
            final(self).tickets == old(self).tickets,
            final(self).next_ticket_handle == old(self).next_ticket_handle,
    {
        match base64_decode(ticket_base64.as_bytes()) {
            Some(bytes) => {
                self.encrypted_ticket = Some(bytes);
                true
            },
            None => false,
        }
    }

    /// The encrypted app ticket as copied into a buffer of `max_ticket` bytes
    /// (the size is taken as an unsigned number); `None` (false) while there
    /// is none.
    pub fn get_encrypted_app_ticket(&self, max_ticket: i32) -> (r: Option<Vec<u8>>)
        ensures
            r is Some <==> self.encrypted_ticket is Some,
            r matches Some(b) ==> b@ == truncated(
                self.encrypted_ticket->0@,
                (max_ticket as usize) as nat,
            ),
    {
        match &self.encrypted_ticket {
            Some(data) => Some(copy_prefix(data.as_slice(), max_ticket as usize)),
            None => None,
        }
    }

    /// Builds and keeps the store auth URL for redirect `url` (`None`:
    /// `about:blank`), account `steam_id` and token `token`; the call handle
    /// returned is 1.
    pub fn request_store_auth_url_with(&mut self, url: Option<&str>, steam_id: u64, token: u64) -> (call: u64)
        requires
            old(self).wf(),
        ensures
            final(self).wf(),
            call == 1,
            final(self).store_auth_url@ == store_auth_url(
                redirect_of(url),
                steam_id,
                token,
            ),
            final(self).tickets == old(self).tickets,
            final(self).next_ticket_handle == old(self).next_ticket_handle,
            final(self).encrypted_ticket == old(self).encrypted_ticket,
    {
        let mut out: Vec<u8> = Vec::new();
        append_bytes(&mut out, "https://store.steampowered.com/login/?redir=".as_bytes());
        match url {
            Some(u) => append_bytes(&mut out, u.as_bytes()),
            None => {
                let blank: Vec<u8> = vec![97u8, 98, 111, 117, 116, 58, 98, 108, 97, 110, 107];
                append_bytes(&mut out, blank.as_slice());
            },
        }
        let p1: Vec<u8> = vec![38u8, 115, 116, 101, 97, 109, 105, 100, 61];
        append_bytes(&mut out, p1.as_slice());
        let id_digits = decimal_bytes(steam_id);
        append_bytes(&mut out, id_digits.as_slice());
        let p2: Vec<u8> = vec![38u8, 116, 111, 107, 101, 110, 61];
        append_bytes(&mut out, p2.as_slice());
        let token_digits = hex_bytes(token);
        append_bytes(&mut out, token_digits.as_slice());
        assert(out@ =~= store_auth_url(
            redirect_of(url),
            steam_id,
            token,
        ));
        self.store_auth_url = out;
        1
    }

    /// `request_store_auth_url_with` on a random token.
    pub fn request_store_auth_url(&mut self, url: Option<&str>, steam_id: u64) -> (call: u64)
        requires
            old(self).wf(),
        ensures
            final(self).wf(),
            call == 1,
            exists|token: u64|
                final(self).store_auth_url@ == #[trigger] store_auth_url(
                    redirect_of(url),
                    steam_id,
                    token,
                ),
            final(self).tickets == old(self).tickets,
    {
        let token = random_u64();
        self.request_store_auth_url_with(url, steam_id, token)
    }

    /// The store auth URL as copied into a buffer of `buffer_size` bytes;
    /// `None` (false) for a buffer under one byte.
    pub fn get_store_auth_url(&self, buffer_size: i32) -> (r: Option<Vec<u8>>)
        ensures
            r is Some <==> buffer_size >= 1,
            r matches Some(b) ==> b@ == c_string_in_buffer(self.store_auth_url@, buffer_size as nat),
    {
        if buffer_size < 1 {
            return None;
        }
        Some(copy_c_string(self.store_auth_url.as_slice(), buffer_size as usize))
    }
}

/// A ticket handed out is as long as every ticket, and its copy into a
/// buffer of at least that size is the whole ticket.
pub proof fn lemma_ticket_fits(steam_id: u64, app_id: u32, timestamp: u64, session_id: u32, nonce: Seq<u8>, max_ticket: nat)
    requires
        nonce.len() == 16,
        hmac_sha256(ticket_secret(app_id), ticket_body(steam_id, app_id, timestamp, session_id, nonce)).len() == 32,
        max_ticket >= TICKET_LEN,
    ensures
        truncated(ticket_bytes(steam_id, app_id, timestamp, session_id, nonce), max_ticket)
            == ticket_bytes(steam_id, app_id, timestamp, session_id, nonce),
{
    let t = ticket_bytes(steam_id, app_id, timestamp, session_id, nonce);
    assert(t.take(t.len() as int) =~= t);
}

/// A ticket is laid out as documented: the version word, the Steam ID, the
/// app ID, the timestamp, the session ID and the random bytes, each where the
/// format puts it and each reading back as its value, then the signature of
/// the first 44 bytes.
pub proof fn lemma_ticket_layout(steam_id: u64, app_id: u32, timestamp: u64, session_id: u32, nonce: Seq<u8>)
    requires
        nonce.len() == 16,
    ensures
        ({
            let t = ticket_bytes(steam_id, app_id, timestamp, session_id, nonce);
            let body = ticket_body(steam_id, app_id, timestamp, session_id, nonce);
            &&& body.len() == 44
            &&& le32_value(t.subrange(0, 4)) == TICKET_VERSION
            &&& le64_value(t.subrange(4, 12)) == steam_id
            &&& le32_value(t.subrange(12, 16)) == app_id
            &&& le64_value(t.subrange(16, 24)) == timestamp
            &&& le32_value(t.subrange(24, 28)) == session_id
            &&& t.subrange(28, 44) == nonce
            &&& t.subrange(44, t.len() as int) == hmac_sha256(ticket_secret(app_id), t.subrange(0, 44))
        }),
{
    let t = ticket_bytes(steam_id, app_id, timestamp, session_id, nonce);
    let body = ticket_body(steam_id, app_id, timestamp, session_id, nonce);
    lemma_le32_round_trip(TICKET_VERSION);
    lemma_le64_round_trip(steam_id);
    lemma_le32_round_trip(app_id);
    lemma_le64_round_trip(timestamp);
    lemma_le32_round_trip(session_id);
    assert(body.len() == 44);
    assert(t.subrange(0, 44) =~= body);
    assert(t.subrange(0, 4) =~= le32(TICKET_VERSION));
    assert(t.subrange(4, 12) =~= le64(steam_id));
    assert(t.subrange(12, 16) =~= le32(app_id));
    assert(t.subrange(16, 24) =~= le64(timestamp));
    assert(t.subrange(24, 28) =~= le32(session_id));
    assert(t.subrange(28, 44) =~= nonce);
    assert(t.subrange(44, t.len() as int) =~= hmac_sha256(ticket_secret(app_id), body));
}

/// The key a ticket is signed with is `oracle_steam_secret_` followed by the
/// app ID in base 10.
pub proof fn lemma_ticket_secret_names_app(app_id: u32)
    ensures
        ticket_secret(app_id).len() > 20,
        crate::cbuf::all_decimal_digits(ticket_secret(app_id).skip(20)),
        crate::cbuf::decimal_value(ticket_secret(app_id).skip(20)) == app_id,
{
    crate::cbuf::lemma_decimal_reads_back(app_id as nat);
    assert(ticket_secret(app_id).skip(20) =~= decimal(app_id as nat));
}

/// The store auth URL is the login prefix, the redirect, `&steamid=` with the
/// account in base 10, and `&token=` with the token in lower-case
/// hexadecimal: each number's digits read back as that number.
pub proof fn lemma_store_auth_url_fields(url: Seq<u8>, steam_id: u64, token: u64)
    ensures
        exists|d: Seq<u8>, t: Seq<u8>|
            #![trigger crate::cbuf::decimal_value(d), crate::cbuf::hex_value(t)]
            store_auth_url(url, steam_id, token) == store_login_prefix() + url + steamid_param() + d
                + token_param() + t && crate::cbuf::all_decimal_digits(d) && d.len() >= 1
                && crate::cbuf::decimal_value(d) == steam_id && crate::cbuf::all_hex_digits(t)
                && t.len() >= 1 && crate::cbuf::hex_value(t) == token,
{
    crate::cbuf::lemma_decimal_reads_back(steam_id as nat);
    crate::cbuf::lemma_hex_reads_back(token as nat);
    let d = decimal(steam_id as nat);
    let t = hex_lower(token as nat);
    assert(crate::cbuf::decimal_value(d) == steam_id && crate::cbuf::hex_value(t) == token);
}

} // verus!

