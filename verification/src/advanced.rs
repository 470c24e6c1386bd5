//! Lane-based connections, the network simulator, the session crypto
//! context, the protocol messages and the client services built on them.
//! Sockets, clocks and channels stay with the caller: the functions here take
//! what those gave and return what is to be sent.
use crate::cbuf::append_bytes;
use crate::rng::{random_key_32, random_u32};
use std::collections::HashMap;
use vstd::prelude::*;
use vstd::string::*;
use sha2::Digest;
use aes::cipher::KeyInit;

verus! {

broadcast use vstd::std_specs::hash::group_hash_axioms;

// ---------------------------------------------------------------------------
// Outside crates
// ---------------------------------------------------------------------------

#[verifier::external_type_specification]
#[verifier::external_body]
pub struct ExRsaPublicKey(rsa::RsaPublicKey);

/// The SHA-256 digest of a byte string.
pub uninterp spec fn sha256_digest(data: Seq<u8>) -> Seq<u8>;

/// `sha2::Sha256`: `new`, `update` with `data`, `finalize`. The result is the
/// digest of `data`, named `sha256_digest`, and is 32 bytes long (the output
/// size of SHA-256).
#[verifier::external_body]
pub(crate) fn sha256(data: &[u8]) -> (h: Vec<u8>)
    ensures
        h@ == sha256_digest(data@),
        h@.len() == 32,
{
    let mut hasher = sha2::Sha256::new();
    hasher.update(data);
    hasher.finalize().to_vec()
}

/// `aes::Aes256::new_from_slice(key)`, told by whether it succeeded: the
/// crate accepts a key exactly when it is 32 bytes long (`KeySize` is `U32`).
#[verifier::external_body]
fn aes256_accepts_key(key: &[u8]) -> (ok: bool)
    ensures
        ok == (key@.len() == 32),
{
    aes::Aes256::new_from_slice(key).is_ok()
}

// ---------------------------------------------------------------------------
// Lane-based connections
// ---------------------------------------------------------------------------

/// A message queued on a connection.
pub struct NetworkMessage {
    pub data: Vec<u8>,
    pub channel: i32,
    pub flags: i32,
    pub timestamp: u64,
    pub lane_id: u16,
}

pub struct NetworkMessageView {
    pub data: Seq<u8>,
    pub channel: i32,
    pub flags: i32,
    pub timestamp: u64,
    pub lane_id: u16,
}

impl NetworkMessage {
    pub open spec fn view(&self) -> NetworkMessageView {
        NetworkMessageView {
            data: self.data@,
            channel: self.channel,
            flags: self.flags,
            timestamp: self.timestamp,
            lane_id: self.lane_id,
        }
    }
}

/// The connection states of the lane-based layer.
#[derive(Clone, Copy, PartialEq, Eq, Structural)]
pub enum ConnectionState {
    Idle,
    Connecting,
    FindingRoute,
    Connected,
    ClosedByPeer,
    ProblemDetected,
}

/// A priority lane of a connection.
#[derive(Clone, Copy)]
pub struct LaneConfig {
    pub lane_id: u16,
    pub priority: i32,
    pub weight: u16,
}

/// A connection of the lane-based layer: the remote address as four octets
/// and a port (the socket itself is the caller's), its queues and its ping.
pub struct AdvancedConnection {
    pub handle: u32,
    pub remote_ip: [u8; 4],
    pub remote_port: u16,
    pub state: ConnectionState,
    pub send_queue: Vec<NetworkMessage>,
    pub recv_queue: Vec<NetworkMessage>,
    pub ping_ms: u32,
    pub lane_config: Vec<LaneConfig>,
}

impl AdvancedConnection {
    pub open spec fn sent(&self) -> Seq<NetworkMessageView> {
        self.send_queue@.map_values(|m: NetworkMessage| m@)
    }
}

/// The lane-based connections, by handle.
pub struct AdvancedConnections {
    pub connections: HashMap<u32, AdvancedConnection>,
}

impl AdvancedConnections {
    pub fn new() -> (s: Self)
        ensures
            s.connections@ == Map::<u32, AdvancedConnection>::empty(),
    {
        AdvancedConnections { connections: HashMap::new() }
    }

    /// Registers a connection under its handle, replacing any other.
    pub fn add_connection(&mut self, conn: AdvancedConnection)
        ensures
            final(self).connections@ == old(self).connections@.insert(conn.handle, conn),
    {
        self.connections.insert(conn.handle, conn);
    }

    /// The messages queued for sending on connection `handle`, if any.
    pub open spec fn sent_on(&self, handle: u32) -> Seq<NetworkMessageView> {
        self.connections@[handle].sent()
    }
}

/// The message that a send on lane `lane_id` queues.
pub open spec fn lane_message(data: Seq<u8>, lane_id: u16, flags: i32, timestamp: u64) -> NetworkMessageView {
    NetworkMessageView { data, channel: lane_id as i32, flags, timestamp, lane_id }
}

/// Queues `data` on lane `lane_id` of connection `handle`, stamped with
/// `timestamp` (milliseconds since the Unix epoch, read by the caller, who
/// also puts the queued bytes on the wire). Only that connection's send queue
/// changes. An unknown handle gives the error `Invalid connection handle` and
/// changes nothing.
pub fn send_message_on_lane(
    conns: &mut AdvancedConnections,
    handle: u32,
    data: Vec<u8>,
    lane_id: u16,
    flags: i32,
    timestamp: u64,
) -> (r: Result<(), String>)
    ensures
        r is Ok <==> old(conns).connections@.contains_key(handle),
        r is Ok ==> {
            let c = old(conns).connections@[handle];
            &&& final(conns).connections@.dom() == old(conns).connections@.dom()
            &&& forall|h: u32|
                #![trigger final(conns).connections@[h]]
                final(conns).connections@.contains_key(h) && h != handle
                    ==> final(conns).connections@[h] == old(conns).connections@[h]
            &&& final(conns).sent_on(handle) == c.sent().push(
                lane_message(data@, lane_id, flags, timestamp),
            )
            &&& final(conns).connections@[handle].handle == c.handle
            &&& final(conns).connections@[handle].remote_ip == c.remote_ip
            &&& final(conns).connections@[handle].remote_port == c.remote_port
            &&& final(conns).connections@[handle].state == c.state
            &&& final(conns).connections@[handle].recv_queue == c.recv_queue
            &&& final(conns).connections@[handle].ping_ms == c.ping_ms
            &&& final(conns).connections@[handle].lane_config == c.lane_config
        },
        r matches Err(e) ==> e@ == "Invalid connection handle"@ && final(conns).connections@
            == old(conns).connections@,
{
    match conns.connections.remove(&handle) {
        Some(mut c) => {
            let ghost before = c.sent();
            let ghost d = data@;
            let msg = NetworkMessage {
                data,
                channel: lane_id as i32,
                flags,
                timestamp,
                lane_id,
            };
            c.send_queue.push(msg);
            assert(c.sent() =~= before.push(lane_message(d, lane_id, flags, timestamp)));
            conns.connections.insert(handle, c);
            assert(final(conns).connections@.dom() =~= old(conns).connections@.dom()) by {
                assert(conns.connections@.dom() =~= old(conns).connections@.dom());
            };
            Ok(())
        },
        None => {
            assert(conns.connections@ =~= old(conns).connections@);
            Err(String::from_str("Invalid connection handle"))
        },
    }
}

/// The round-trip time that a quality update records: 50 ms plus a random
/// value below 100 ms.
pub open spec fn simulated_ping(random: u32) -> u32 {
    (50 + random % 100) as u32
}

/// Records a fresh simulated ping on connection `handle` from a random value
/// `random`; false when there is no such connection. The figures derived from
/// it in floating point are the caller's.
pub fn record_ping(conns: &mut AdvancedConnections, handle: u32, random: u32) -> (ok: bool)
    ensures
        ok == old(conns).connections@.contains_key(handle),
        ok ==> final(conns).connections@ == old(conns).connections@.insert(
            handle,
            AdvancedConnection { ping_ms: simulated_ping(random), ..old(conns).connections@[handle] },
        ),
        !ok ==> final(conns).connections@ == old(conns).connections@,
{
    match conns.connections.remove(&handle) {
        Some(mut c) => {
            c.ping_ms = 50 + random % 100;
            conns.connections.insert(handle, c);
            true
        },
        None => {
            assert(conns.connections@ =~= old(conns).connections@);
            false
        },
    }
}

// ---------------------------------------------------------------------------
// Network simulator
// ---------------------------------------------------------------------------

/// The integer part of the network simulator: a fixed latency and a jitter
/// bound, both in milliseconds. (Loss and duplication rates are fractions and
/// stay with the caller.)
#[derive(Clone, Copy)]
pub struct NetworkSimulator {
    pub latency_ms: u32,
    pub jitter_ms: u32,
}

/// The delay for one packet, given a random value: the latency plus the
/// random value reduced below the jitter bound (no jitter when it is 0).
pub open spec fn delay_of(latency_ms: u32, jitter_ms: u32, random: u32) -> int {
    if jitter_ms > 0 {
        latency_ms + random % jitter_ms
    } else {
        latency_ms as int
    }
}

impl NetworkSimulator {
    pub fn new() -> (s: Self)
        ensures
            s.latency_ms == 0,
            s.jitter_ms == 0,
    {
        NetworkSimulator { latency_ms: 0, jitter_ms: 0 }
    }

    /// Every delay this simulator can produce fits in 32 bits.
    pub open spec fn delays_fit(&self) -> bool {
        self.latency_ms + self.jitter_ms <= u32::MAX + 1
    }

    /// The delay for one packet with the random value `random`.
    pub fn delay_with(&self, random: u32) -> (d: u32)
        requires
            self.delays_fit(),
        ensures
            d == delay_of(self.latency_ms, self.jitter_ms, random),
    {
        let jitter = if self.jitter_ms > 0 {
            random % self.jitter_ms
        } else {
            0
        };
        self.latency_ms + jitter
    }

    /// The delay for one packet: at least the latency, and below latency plus
    /// jitter when there is jitter.
    pub fn get_delay(&self) -> (d: u32)
        requires
            self.delays_fit(),
        ensures
            self.latency_ms <= d,
            self.jitter_ms > 0 ==> d < self.latency_ms + self.jitter_ms,
            self.jitter_ms == 0 ==> d == self.latency_ms,
    {
        let r = random_u32();
        self.delay_with(r)
    }
}

// ---------------------------------------------------------------------------
// Session crypto
// ---------------------------------------------------------------------------

/// What encrypting a message yields: the message itself, as no cipher is
/// applied.
pub open spec fn encrypted(m: Seq<u8>) -> Seq<u8> {
    m
}

/// What decrypting bytes yields: the bytes themselves.
pub open spec fn decrypted(c: Seq<u8>) -> Seq<u8> {
    c
}

/// Decrypting what encryption produced gives the message back.
pub proof fn lemma_decrypt_inverts_encrypt(m: Seq<u8>)
    ensures
        decrypted(encrypted(m)) == m,
{
}

/// The session's keys and the count of messages encrypted so far.
pub struct CryptoContext {
    pub session_key: [u8; 32],
    pub hmac_key: [u8; 32],
    pub sequence_num: u64,
}

impl CryptoContext {
    /// Fresh random keys; nothing encrypted yet.
    pub fn new() -> (c: Self)
        ensures
            c.sequence_num == 0,
    {
        let session_key = random_key_32();
        let hmac_key = random_key_32();
        CryptoContext { session_key, hmac_key, sequence_num: 0 }
    }

    /// Encrypts a message: the bytes come back unchanged (no cipher is
    /// applied) and the sequence number advances by one. The session key is
    /// handed to AES-256, which accepts it.
    pub fn encrypt(&mut self, plaintext: &[u8]) -> (out: Vec<u8>)
        requires
            old(self).sequence_num < u64::MAX,
        ensures
            out@ == encrypted(plaintext@),
            final(self).sequence_num == old(self).sequence_num + 1,
            final(self).session_key == old(self).session_key,
            final(self).hmac_key == old(self).hmac_key,
    {
        let accepted = aes256_accepts_key(&self.session_key);
        assert(accepted);
        let mut encrypted: Vec<u8> = Vec::new();
        append_bytes(&mut encrypted, plaintext);
        assert(encrypted@ =~= plaintext@);
        self.sequence_num = self.sequence_num + 1;
        encrypted
    }

    /// Decrypts a message: always succeeds, with the bytes unchanged.
    pub fn decrypt(&self, ciphertext: &[u8]) -> (r: Result<Vec<u8>, String>)
        ensures
            r matches Ok(v) && v@ == decrypted(ciphertext@),
    {
        let accepted = aes256_accepts_key(&self.session_key);
        assert(accepted);
        let mut plain: Vec<u8> = Vec::new();
        append_bytes(&mut plain, ciphertext);
        assert(plain@ =~= ciphertext@);
        Ok(plain)
    }

    /// The session key as sent in a key exchange: 256 zero bytes, whatever
    /// the public key.
    pub fn rsa_encrypt_session_key(public_key: &rsa::RsaPublicKey) -> (out: Vec<u8>)
        ensures
            out@ == Seq::new(256, |i: int| 0u8),
    {
        let mut out: Vec<u8> = Vec::new();
        let mut i: usize = 0;
        while i < 256
            invariant
                i <= 256,
                out@ == Seq::new(i as nat, |j: int| 0u8),
            decreases 256 - i,
        {
            out.push(0u8);
            i = i + 1;
            assert(out@ =~= Seq::new(i as nat, |j: int| 0u8));
        }
        out
    }
}

} // verus!
