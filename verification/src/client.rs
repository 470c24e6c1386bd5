//! The client side: pipes, the client's identity, its own auth tickets, the
//! connection record, and whether the API was initialised.
use crate::cbuf::append_bytes;
use crate::rng::{random_bytes_16, random_u32};
use crate::user::{le32, le64, push_le32, push_le64};
use vstd::prelude::*;

verus! {

/// A pipe to the client, known by its id.
pub struct SteamPipe {
    id: i32,
}

impl SteamPipe {
    pub fn new(id: i32) -> (p: Self)
        ensures
            p.id() == id,
    {
        SteamPipe { id }
    }

    pub closed spec fn spec_id(&self) -> i32 {
        self.id
    }

    #[verifier::when_used_as_spec(spec_id)]
    pub fn id(&self) -> (id: i32)
        ensures
            id == self.spec_id(),
    {
        self.id
    }
}

/// The client, known by the Steam ID it runs as.
pub struct SteamClient {
    steam_id: u64,
}

impl SteamClient {
    pub fn new(steam_id: u64) -> (c: Self)
        ensures
            c.steam_id() == steam_id,
    {
        SteamClient { steam_id }
    }

    pub closed spec fn spec_steam_id(&self) -> u64 {
        self.steam_id
    }

    #[verifier::when_used_as_spec(spec_steam_id)]
    pub fn steam_id(&self) -> (id: u64)
        ensures
            id == self.spec_steam_id(),
    {
        self.steam_id
    }
}

/// The bytes of a client ticket: the Steam ID and app ID, little-endian,
/// then 16 random bytes.
pub open spec fn client_ticket_bytes(steam_id: u64, app_id: u32, nonce: Seq<u8>) -> Seq<u8> {
    le64(steam_id) + le32(app_id) + nonce
}

/// A ticket the client makes for itself.
pub struct AuthTicket {
    pub handle: u32,
    pub data: Vec<u8>,
}

impl AuthTicket {
    /// The ticket with handle `handle` and random bytes `nonce`.
    pub fn generate_with(steam_id: u64, app_id: u32, handle: u32, nonce: &[u8]) -> (t: Self)
        requires
            nonce@.len() == 16,
        ensures
            t.handle == handle,
            t.data@ == client_ticket_bytes(steam_id, app_id, nonce@),
            t.data@.len() == 28,
    {
        let mut data: Vec<u8> = Vec::new();
        push_le64(&mut data, steam_id);
        push_le32(&mut data, app_id);
        append_bytes(&mut data, nonce);
        assert(data@ =~= client_ticket_bytes(steam_id, app_id, nonce@));
        AuthTicket { handle, data }
    }

    /// A ticket with a random handle and random bytes.
    pub fn generate(steam_id: u64, app_id: u32) -> (t: Self)
        ensures
            exists|nonce: Seq<u8>|
                nonce.len() == 16 && t.data@ == #[trigger] client_ticket_bytes(steam_id, app_id, nonce),
            t.data@.len() == 28,
    {
        let nonce = random_bytes_16();
        let handle = random_u32();
        let t = Self::generate_with(steam_id, app_id, handle, nonce.as_slice());
        assert(t.data@ == client_ticket_bytes(steam_id, app_id, nonce@));
        t
    }
}

/// An IP address: four bytes, or sixteen.
#[derive(Clone, Copy)]
pub enum IpAddress {
    V4([u8; 4]),
    V6([u8; 16]),
}

/// A socket address: an IP address and a port.
#[derive(Clone, Copy)]
pub struct SocketAddress {
    pub ip: IpAddress,
    pub port: u16,
}

/// Whether `a` is `127.0.0.1:27015`.
pub open spec fn is_default_server(a: SocketAddress) -> bool {
    &&& a.ip matches IpAddress::V4(o) && o@ == seq![127u8, 0, 0, 1]
    &&& a.port == 27015
}

/// The record of the client's connection.
pub struct SteamConnection {
    pub remote_addr: SocketAddress,
    pub connected: bool,
}

impl SteamConnection {
    /// Not connected, aimed at `127.0.0.1:27015`.
    pub fn new() -> (c: Self)
        ensures
            is_default_server(c.remote_addr),
            !c.connected,
    {
        let ip: [u8; 4] = [127u8, 0, 0, 1];
        assert(ip@ =~= seq![127u8, 0, 0, 1]);
        SteamConnection { remote_addr: SocketAddress { ip: IpAddress::V4(ip), port: 27015 }, connected: false }
    }

    /// Connects to `addr`; always succeeds.
    pub fn connect(&mut self, addr: SocketAddress) -> (r: Result<(), String>)
        ensures
            r is Ok,
            final(self).remote_addr == addr,
            final(self).connected,
    {
        self.remote_addr = addr;
        self.connected = true;
        Ok(())
    }

    /// Disconnects; the address is kept.
    pub fn disconnect(&mut self)
        ensures
            !final(self).connected,
            final(self).remote_addr == old(self).remote_addr,
    {
        self.connected = false;
    }
}

/// Whether the API is initialised.
pub struct ApiLifecycle {
    pub initialized: bool,
}

impl ApiLifecycle {
    pub fn new() -> (a: Self)
        ensures
            !a.initialized,
    {
        ApiLifecycle { initialized: false }
    }

    /// Initialises the API (again, if it already was); always succeeds.
    pub fn init(&mut self) -> (ok: bool)
        ensures
            ok,
            final(self).initialized,
    {
        if self.initialized {
            return true;
        }
        self.initialized = true;
        true
    }

    pub fn shutdown(&mut self)
        ensures
            !final(self).initialized,
    {
        self.initialized = false;
    }
}

/// What the heartbeat loop does next.
#[derive(Clone, Copy, PartialEq, Eq, Structural)]
pub enum HeartbeatAction {
    /// Call the heartbeat, wait a second, and ask again.
    Beat,
    /// Leave the loop.
    Stop,
}

/// The desktop application's protection: whether it is running, and whether
/// its heartbeat loop was started and not yet joined.
pub struct ProtectionState {
    pub running: bool,
    pub heartbeat_started: bool,
}

impl ProtectionState {
    pub fn new() -> (p: Self)
        ensures
            !p.running,
            !p.heartbeat_started,
    {
        ProtectionState { running: false, heartbeat_started: false }
    }

    /// Starts the protection: running, with a heartbeat loop to start.
    pub fn start(&mut self)
        ensures
            final(self).running,
            final(self).heartbeat_started,
    {
        self.running = true;
        self.heartbeat_started = true;
    }

    /// The heartbeat loop's next step: beat while running.
    pub fn next_heartbeat(&self) -> (a: HeartbeatAction)
        ensures
            a == if self.running {
                HeartbeatAction::Beat
            } else {
                HeartbeatAction::Stop
            },
    {
        if self.running {
            HeartbeatAction::Beat
        } else {
            HeartbeatAction::Stop
        }
    }

    /// Stops the protection; returns whether a heartbeat loop is to be
    /// joined.
    pub fn stop(&mut self) -> (join: bool)
        ensures
            !final(self).running,
            !final(self).heartbeat_started,
            join == old(self).heartbeat_started,
    {
        self.running = false;
        let join = self.heartbeat_started;
        self.heartbeat_started = false;
        join
    }
}

} // verus!
