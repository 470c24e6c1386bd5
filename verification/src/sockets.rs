//! The emulated ISteamNetworkingSockets interface: connections, listen
//! sockets and poll groups, all named by handles drawn from one counter.
//! Messages sent on a connection are queued on it.
use crate::cbuf::{append_bytes, c_string_in_buffer, copy_c_string, decimal, decimal_bytes};
use std::collections::HashMap;
use vstd::prelude::*;

verus! {

broadcast use vstd::std_specs::hash::group_hash_axioms;

/// The identity of a remote peer, laid out as the C API lays it out.
#[derive(Clone, Copy)]
pub struct SteamNetworkingIdentity {
    pub identity_type: i32,
    pub steam_id: u64,
    pub ip_addr: [u8; 16],
    pub generic_string: [u8; 128],
    pub generic_bytes: [u8; 32],
}

/// An identity as plain values.
pub struct IdentityView {
    pub identity_type: i32,
    pub steam_id: u64,
    pub ip_addr: Seq<u8>,
    pub generic_string: Seq<u8>,
    pub generic_bytes: Seq<u8>,
}

/// The identity whose bytes are all zero.
pub open spec fn zero_identity() -> IdentityView {
    IdentityView {
        identity_type: 0,
        steam_id: 0,
        ip_addr: Seq::new(16, |i: int| 0u8),
        generic_string: Seq::new(128, |i: int| 0u8),
        generic_bytes: Seq::new(32, |i: int| 0u8),
    }
}

impl SteamNetworkingIdentity {
    pub open spec fn view(&self) -> IdentityView {
        IdentityView {
            identity_type: self.identity_type,
            steam_id: self.steam_id,
            ip_addr: self.ip_addr@,
            generic_string: self.generic_string@,
            generic_bytes: self.generic_bytes@,
        }
    }

    /// The all-zero identity given to connections opened by address.
    pub fn zeroed() -> (id: Self)
        ensures
            id@ == zero_identity(),
    {
        let id = SteamNetworkingIdentity {
            identity_type: 0,
            steam_id: 0,
            ip_addr: [0u8; 16],
            generic_string: [0u8; 128],
            generic_bytes: [0u8; 32],
        };
        assert(id.ip_addr@ =~= Seq::new(16, |i: int| 0u8));
        assert(id.generic_string@ =~= Seq::new(128, |i: int| 0u8));
        assert(id.generic_bytes@ =~= Seq::new(32, |i: int| 0u8));
        assert(id@ =~= zero_identity());
        id
    }
}

/// An address as the C API passes it: sixteen bytes of IPv6 (IPv4 addresses
/// mapped into `::ffff:a.b.c.d`) and a port.
#[derive(Clone, Copy)]
pub struct SteamNetworkingIPAddr {
    pub ipv6: [u8; 16],
    pub port: u16,
}

/// An IPv4 socket address: four octets and a port.
#[derive(Clone, Copy)]
pub struct RemoteAddr {
    pub ip: [u8; 4],
    pub port: u16,
}

/// Whether the first twelve bytes are the IPv4-mapped prefix
/// `0:0:0:0:0:ffff`.
pub open spec fn is_ipv4_mapped(ipv6: Seq<u8>) -> bool {
    &&& forall|i: int| 0 <= i < 10 ==> ipv6[i] == 0u8
    &&& ipv6[10] == 0xffu8
    &&& ipv6[11] == 0xffu8
}

/// Where a connection opened by address goes: the mapped IPv4 address and
/// the port, or `127.0.0.1:27015` for any other address.
pub open spec fn remote_of(addr: SteamNetworkingIPAddr) -> (Seq<u8>, u16) {
    if is_ipv4_mapped(addr.ipv6@) {
        (addr.ipv6@.subrange(12, 16), addr.port)
    } else {
        (seq![127u8, 0, 0, 1], 27015u16)
    }
}

/// Reads the destination of a connection opened by address.
pub fn remote_addr_of(addr: &SteamNetworkingIPAddr) -> (r: RemoteAddr)
    ensures
        r.ip@ == remote_of(*addr).0,
        r.port == remote_of(*addr).1,
{
    let mut mapped = addr.ipv6[10] == 0xff && addr.ipv6[11] == 0xff;
    let mut i: usize = 0;
    while i < 10
        invariant
            i <= 10,
            mapped ==> forall|j: int| 0 <= j < i ==> addr.ipv6@[j] == 0u8,
            !mapped ==> !is_ipv4_mapped(addr.ipv6@),
            (addr.ipv6@[10] == 0xffu8 && addr.ipv6@[11] == 0xffu8) || !mapped,
        decreases 10 - i,
    {
        if addr.ipv6[i] != 0 {
            mapped = false;
        }
        i = i + 1;
    }
    if mapped {
        let r = RemoteAddr {
            ip: [addr.ipv6[12], addr.ipv6[13], addr.ipv6[14], addr.ipv6[15]],
            port: addr.port,
        };
        assert(r.ip@ =~= addr.ipv6@.subrange(12, 16));
        r
    } else {
        let r = RemoteAddr { ip: [127u8, 0, 0, 1], port: 27015 };
        assert(r.ip@ =~= seq![127u8, 0, 0, 1]);
        r
    }
}

/// `k_ESteamNetworkingConnectionState_Connecting`
pub const STATE_CONNECTING: i32 = 2;

/// `k_ESteamNetworkingConnectionState_Connected`
pub const STATE_CONNECTED: i32 = 3;

/// `k_EResultOK`
pub const RESULT_OK: i32 = 1;

/// `k_EResultFail`
pub const RESULT_FAIL: i32 = 2;

/// The port a listen socket gets when the caller gives no address.
pub const DEFAULT_LISTEN_PORT: u16 = 27015;

pub struct Connection {
    pub handle: u32,
    pub remote_identity: SteamNetworkingIdentity,
    pub remote_addr: RemoteAddr,
    pub state: i32,
    pub send_queue: Vec<Vec<u8>>,
    pub recv_queue: Vec<Vec<u8>>,
    pub user_data: i64,
}

pub struct ConnectionView {
    pub remote_identity: IdentityView,
    pub remote_ip: Seq<u8>,
    pub remote_port: u16,
    pub state: i32,
    pub send_queue: Seq<Seq<u8>>,
    pub recv_queue: Seq<Seq<u8>>,
    pub user_data: i64,
}

impl Connection {
    pub open spec fn view(&self) -> ConnectionView {
        ConnectionView {
            remote_identity: self.remote_identity@,
            remote_ip: self.remote_addr.ip@,
            remote_port: self.remote_addr.port,
            state: self.state,
            send_queue: self.send_queue@.map_values(|m: Vec<u8>| m@),
            recv_queue: self.recv_queue@.map_values(|m: Vec<u8>| m@),
            user_data: self.user_data,
        }
    }
}

/// A connection just opened: connecting, with empty queues and no user data.
pub open spec fn opened(identity: IdentityView, ip: Seq<u8>, port: u16) -> ConnectionView {
    ConnectionView {
        remote_identity: identity,
        remote_ip: ip,
        remote_port: port,
        state: STATE_CONNECTING,
        send_queue: Seq::empty(),
        recv_queue: Seq::empty(),
        user_data: 0,
    }
}

pub struct ListenSocket {
    pub handle: u32,
    pub local_port: u16,
    pub pending_connections: Vec<u32>,
}

pub struct PollGroup {
    pub handle: u32,
    pub connections: Vec<u32>,
}

/// What `GetConnectionInfo` reports of a connection.
#[derive(Clone, Copy)]
pub struct ConnectionInfo {
    pub identity_remote: SteamNetworkingIdentity,
    pub user_data: i64,
    pub state: i32,
    pub end_reason: i32,
}

/// Whether `x` occurs in `v`.
fn contains_u32(v: &[u32], x: u32) -> (r: bool)
    ensures
        r == v@.contains(x),
{
    let mut i: usize = 0;
    while i < v.len()
        invariant
            i <= v@.len(),
            forall|j: int| 0 <= j < i ==> v@[j] != x,
        decreases v@.len() - i,
    {
        if v[i] == x {
            return true;
        }
        i = i + 1;
    }
    false
}

/// `Connection_<handle>`
pub open spec fn connection_name(handle: u32) -> Seq<u8> {
    seq![67u8, 111, 110, 110, 101, 99, 116, 105, 111, 110, 95] + decimal(handle as nat)
}

/// The user data of connection `peer`, or 0 when there is none.
pub open spec fn user_data_of(conns: Map<u32, ConnectionView>, peer: u32) -> i64 {
    if conns.contains_key(peer) {
        conns[peer].user_data
    } else {
        0
    }
}

/// The connections after the user data of `peer` (which exists) was set.
pub open spec fn with_user_data(conns: Map<u32, ConnectionView>, peer: u32, user_data: i64) -> Map<u32, ConnectionView> {
    conns.insert(peer, ConnectionView { user_data, ..conns[peer] })
}

/// The connections after `data` was queued on `conn` (which exists).
pub open spec fn with_sent(conns: Map<u32, ConnectionView>, conn: u32, data: Seq<u8>) -> Map<u32, ConnectionView> {
    conns.insert(conn, ConnectionView { send_queue: conns[conn].send_queue.push(data), ..conns[conn] })
}

pub struct NetworkingSockets {
    pub connections: HashMap<u32, Connection>,
    pub listen_sockets: HashMap<u32, ListenSocket>,
    pub poll_groups: HashMap<u32, PollGroup>,
    pub next_handle: u32,
}

impl NetworkingSockets {
    /// Every entry sits under its own handle, drawn before the counter's
    /// current value.
    pub open spec fn wf(&self) -> bool {
        &&& forall|h: u32| #[trigger]
            self.connections@.contains_key(h) ==> self.connections@[h].handle == h && h
                < self.next_handle
        &&& forall|h: u32| #[trigger]
            self.listen_sockets@.contains_key(h) ==> self.listen_sockets@[h].handle == h && h
                < self.next_handle
        &&& forall|h: u32| #[trigger]
            self.poll_groups@.contains_key(h) ==> self.poll_groups@[h].handle == h && h
                < self.next_handle
        &&& self.next_handle >= 1
    }

    pub open spec fn connections_view(&self) -> Map<u32, ConnectionView> {
        self.connections@.map_values(|c: Connection| c@)
    }

    /// Listen sockets by handle: their port and pending connections.
    pub open spec fn listen_view(&self) -> Map<u32, (u16, Seq<u32>)> {
        self.listen_sockets@.map_values(|s: ListenSocket| (s.local_port, s.pending_connections@))
    }

    /// Poll groups by handle: the connections assigned to them.
    pub open spec fn groups_view(&self) -> Map<u32, Seq<u32>> {
        self.poll_groups@.map_values(|g: PollGroup| g.connections@)
    }

    /// Whether `h` names nothing yet: no connection, listen socket or group.
    pub open spec fn is_fresh(&self, h: u32) -> bool {
        &&& !self.connections@.contains_key(h)
        &&& !self.listen_sockets@.contains_key(h)
        &&& !self.poll_groups@.contains_key(h)
    }

    pub fn new() -> (s: Self)
        ensures
            s.wf(),
            s.connections_view() == Map::<u32, ConnectionView>::empty(),
            s.listen_view() == Map::<u32, (u16, Seq<u32>)>::empty(),
            s.groups_view() == Map::<u32, Seq<u32>>::empty(),
            s.next_handle == 1,
    {
        let s = NetworkingSockets {
            connections: HashMap::new(),
            listen_sockets: HashMap::new(),
            poll_groups: HashMap::new(),
            next_handle: 1,
        };
        assert(s.connections_view() =~= Map::<u32, ConnectionView>::empty());
        assert(s.listen_view() =~= Map::<u32, (u16, Seq<u32>)>::empty());
        assert(s.groups_view() =~= Map::<u32, Seq<u32>>::empty());
        s
    }

    fn take_handle(&mut self) -> (h: u32)
        requires
            old(self).wf(),
            old(self).next_handle < u32::MAX,
        ensures
            h == old(self).next_handle,
            old(self).is_fresh(h),
            final(self).next_handle == h + 1,
            final(self).connections == old(self).connections,
            final(self).listen_sockets == old(self).listen_sockets,
            final(self).poll_groups == old(self).poll_groups,
            final(self).wf(),
    {
        let h = self.next_handle;
        self.next_handle = h + 1;
        h
    }

    /// Opens a listen socket on `port` (27015 when the caller gave no
    /// address) under a fresh handle.
    pub fn create_listen_socket_ip(&mut self, port: Option<u16>) -> (h: u32)
        requires
            old(self).wf(),
            old(self).next_handle < u32::MAX,
        ensures
            final(self).wf(),
            h == old(self).next_handle,
            old(self).is_fresh(h),
            final(self).next_handle == h + 1,
            final(self).listen_view() == old(self).listen_view().insert(
                h,
                (
                    match port {
                        Some(p) => p,
                        None => DEFAULT_LISTEN_PORT,
                    },
                    Seq::<u32>::empty(),
                ),
            ),
            final(self).connections_view() == old(self).connections_view(),
            final(self).groups_view() == old(self).groups_view(),
    {
        let local_port = match port {
            Some(p) => p,
            None => DEFAULT_LISTEN_PORT,
        };
        let h = self.take_handle();
        let ghost before = self.listen_view();
        let socket = ListenSocket { handle: h, local_port, pending_connections: Vec::new() };
        assert(socket.pending_connections@ =~= Seq::<u32>::empty());
        self.listen_sockets.insert(h, socket);
        assert(self.listen_view() =~= before.insert(h, (local_port, Seq::<u32>::empty())));
        assert(self.connections_view() =~= old(self).connections_view());
        assert(self.groups_view() =~= old(self).groups_view());
        h
    }

    fn open_connection(&mut self, identity: SteamNetworkingIdentity, remote: RemoteAddr) -> (h: u32)
        requires
            old(self).wf(),
            old(self).next_handle < u32::MAX,
        ensures
            final(self).wf(),
            h == old(self).next_handle,
            old(self).is_fresh(h),
            final(self).next_handle == h + 1,
            final(self).connections_view() == old(self).connections_view().insert(
                h,
                opened(identity@, remote.ip@, remote.port),
            ),
            final(self).listen_view() == old(self).listen_view(),
            final(self).groups_view() == old(self).groups_view(),
    {
        let h = self.take_handle();
        let ghost before = self.connections_view();
        let conn = Connection {
            handle: h,
            remote_identity: identity,
            remote_addr: remote,
            state: STATE_CONNECTING,
            send_queue: Vec::new(),
            recv_queue: Vec::new(),
            user_data: 0,
        };
        assert(conn@.send_queue =~= Seq::<Seq<u8>>::empty());
        assert(conn@.recv_queue =~= Seq::<Seq<u8>>::empty());
        assert(conn@ =~= opened(identity@, remote.ip@, remote.port));
        self.connections.insert(h, conn);
        assert(self.connections_view() =~= before.insert(h, opened(identity@, remote.ip@, remote.port)));
        assert(self.listen_view() =~= old(self).listen_view());
        assert(self.groups_view() =~= old(self).groups_view());
        h
    }

    /// Opens a connection to `address` (an IPv4-mapped address, else
    /// `127.0.0.1:27015`); no address gives 0 and changes nothing.
    pub fn connect_by_ip_address(&mut self, address: Option<&SteamNetworkingIPAddr>) -> (h: u32)
        requires
            old(self).wf(),
            old(self).next_handle < u32::MAX,
        ensures
            final(self).wf(),
            address is None ==> h == 0 && *final(self) == *old(self),
            address matches Some(a) ==> {
                &&& h == old(self).next_handle
                &&& old(self).is_fresh(h)
                &&& final(self).next_handle == h + 1
                &&& final(self).connections_view() == old(self).connections_view().insert(
                    h,
                    opened(zero_identity(), remote_of(*a).0, remote_of(*a).1),
                )
                &&& final(self).listen_view() == old(self).listen_view()
                &&& final(self).groups_view() == old(self).groups_view()
            },
    {
        match address {
            None => 0,
            Some(a) => {
                let remote = remote_addr_of(a);
                let id = SteamNetworkingIdentity::zeroed();
                self.open_connection(id, remote)
            },
        }
    }
    /// Opens a peer-to-peer connection to `identity`, with remote address
    /// `0.0.0.0:0`; no identity gives 0 and changes nothing.
    pub fn connect_p2p(&mut self, identity: Option<&SteamNetworkingIdentity>) -> (h: u32)
        requires
            old(self).wf(),
            old(self).next_handle < u32::MAX,
        ensures
            final(self).wf(),
            identity is None ==> h == 0 && *final(self) == *old(self),
            identity matches Some(id) ==> {
                &&& h == old(self).next_handle
                &&& old(self).is_fresh(h)
                &&& final(self).next_handle == h + 1
                &&& final(self).connections_view() == old(self).connections_view().insert(
                    h,
                    opened(id@, seq![0u8, 0, 0, 0], 0u16),
                )
                &&& final(self).listen_view() == old(self).listen_view()
                &&& final(self).groups_view() == old(self).groups_view()
            },
    {
        match identity {
            None => 0,
            Some(id) => {
                let remote = RemoteAddr { ip: [0u8, 0, 0, 0], port: 0 };
                assert(remote.ip@ =~= seq![0u8, 0, 0, 0]);
                self.open_connection(*id, remote)
            },
        }
    }

    /// Marks connection `conn` connected: `RESULT_OK`, or `RESULT_FAIL` when
    /// there is no such connection.
    pub fn accept_connection(&mut self, conn: u32) -> (r: i32)
        requires
            old(self).wf(),
        ensures
            final(self).wf(),
            old(self).connections@.contains_key(conn) ==> r == RESULT_OK
                && final(self).connections_view() == old(self).connections_view().insert(
                conn,
                ConnectionView { state: STATE_CONNECTED, ..old(self).connections_view()[conn] },
            ),
            !old(self).connections@.contains_key(conn) ==> r == RESULT_FAIL
                && final(self).connections_view() == old(self).connections_view(),
            final(self).listen_view() == old(self).listen_view(),
            final(self).groups_view() == old(self).groups_view(),
            final(self).next_handle == old(self).next_handle,
    {
        let ghost before = self.connections_view();
        match self.connections.remove(&conn) {
            Some(mut c) => {
                c.state = STATE_CONNECTED;
                let ghost v = c@;
                self.connections.insert(conn, c);
                assert(self.connections_view() =~= before.insert(
                    conn,
                    ConnectionView { state: STATE_CONNECTED, ..before[conn] },
                ));
                RESULT_OK
            },
            None => {
                assert(self.connections_view() =~= before);
                RESULT_FAIL
            },
        }
    }

    /// Closes connection `peer`; false when there was none.
    pub fn close_connection(&mut self, peer: u32) -> (removed: bool)
        requires
            old(self).wf(),
        ensures
            final(self).wf(),
            removed == old(self).connections@.contains_key(peer),
            final(self).connections_view() == old(self).connections_view().remove(peer),
            final(self).listen_view() == old(self).listen_view(),
            final(self).groups_view() == old(self).groups_view(),
            final(self).next_handle == old(self).next_handle,
    {
        let r = self.connections.remove(&peer);
        assert(self.connections_view() =~= old(self).connections_view().remove(peer));
        r.is_some()
    }

    /// Closes listen socket `sock`; false when there was none.
    pub fn close_listen_socket(&mut self, sock: u32) -> (removed: bool)
        requires
            old(self).wf(),
        ensures
            final(self).wf(),
            removed == old(self).listen_sockets@.contains_key(sock),
            final(self).listen_view() == old(self).listen_view().remove(sock),
            final(self).connections_view() == old(self).connections_view(),
            final(self).groups_view() == old(self).groups_view(),
            final(self).next_handle == old(self).next_handle,
    {
        let r = self.listen_sockets.remove(&sock);
        assert(self.listen_view() =~= old(self).listen_view().remove(sock));
        r.is_some()
    }

    /// Queues `data` on connection `conn`. `Some(n)` stands for `RESULT_OK`,
    /// with `n` the message number (the queue's new length); `None` for
    /// `RESULT_FAIL`: empty data, or no such connection.
    pub fn send_message_to_connection(&mut self, conn: u32, data: &[u8]) -> (r: Option<i64>)
        requires
            old(self).wf(),
        ensures
            final(self).wf(),
            r is Some <==> data@.len() > 0 && old(self).connections@.contains_key(conn),
            r is Some ==> {
                &&& final(self).connections_view() == with_sent(old(self).connections_view(), conn, data@)
                &&& r == Some(final(self).connections_view()[conn].send_queue.len() as i64)
            },
            r is None ==> final(self).connections_view() == old(self).connections_view(),
            final(self).listen_view() == old(self).listen_view(),
            final(self).groups_view() == old(self).groups_view(),
            final(self).next_handle == old(self).next_handle,
    {
        if data.len() == 0 {
            return None;
        }
        let ghost before = self.connections_view();
        match self.connections.remove(&conn) {
            Some(mut c) => {
                let ghost cv = c@;
                let mut msg: Vec<u8> = Vec::new();
                append_bytes(&mut msg, data);
                assert(msg@ =~= data@);
                c.send_queue.push(msg);
                let n = c.send_queue.len() as i64;
                assert(c@.send_queue =~= cv.send_queue.push(data@));
                self.connections.insert(conn, c);
                assert(self.connections_view() =~= before.insert(
                    conn,
                    ConnectionView { send_queue: cv.send_queue.push(data@), ..cv },
                ));
                Some(n)
            },
            None => {
                assert(self.connections_view() =~= before);
                None
            },
        }
    }

    /// Messages waiting on a connection are never handed out: the count
    /// reported is always 0, whatever the arguments.
    pub fn receive_messages_on_connection(&self, conn: u32, max_messages: i32) -> (n: i32)
        ensures
            n == 0,
    {
        if max_messages < 1 {
            return 0;
        }
        match self.connections.get(&conn) {
            Some(c) => {
                let _waiting = if c.recv_queue.len() < max_messages as usize {
                    c.recv_queue.len()
                } else {
                    max_messages as usize
                };
                0
            },
            None => 0,
        }
    }

    /// Creates an empty poll group under a fresh handle.
    pub fn create_poll_group(&mut self) -> (h: u32)
        requires
            old(self).wf(),
            old(self).next_handle < u32::MAX,
        ensures
            final(self).wf(),
            h == old(self).next_handle,
            old(self).is_fresh(h),
            final(self).next_handle == h + 1,
            final(self).groups_view() == old(self).groups_view().insert(h, Seq::<u32>::empty()),
            final(self).connections_view() == old(self).connections_view(),
            final(self).listen_view() == old(self).listen_view(),
    {
        let h = self.take_handle();
        let ghost before = self.groups_view();
        let g = PollGroup { handle: h, connections: Vec::new() };
        assert(g.connections@ =~= Seq::<u32>::empty());
        self.poll_groups.insert(h, g);
        assert(self.groups_view() =~= before.insert(h, Seq::<u32>::empty()));
        assert(self.connections_view() =~= old(self).connections_view());
        assert(self.listen_view() =~= old(self).listen_view());
        h
    }

    /// Destroys poll group `group`; false when there was none.
    pub fn destroy_poll_group(&mut self, group: u32) -> (removed: bool)
        requires
            old(self).wf(),
        ensures
            final(self).wf(),
            removed == old(self).poll_groups@.contains_key(group),
            final(self).groups_view() == old(self).groups_view().remove(group),
            final(self).connections_view() == old(self).connections_view(),
            final(self).listen_view() == old(self).listen_view(),
            final(self).next_handle == old(self).next_handle,
    {
        let r = self.poll_groups.remove(&group);
        assert(self.groups_view() =~= old(self).groups_view().remove(group));
        r.is_some()
    }

    /// Adds `conn` to poll group `group`, once; false when there is no such
    /// group. The connection itself is not looked up.
    pub fn set_connection_poll_group(&mut self, conn: u32, group: u32) -> (ok: bool)
        requires
            old(self).wf(),
        ensures
            final(self).wf(),
            ok == old(self).poll_groups@.contains_key(group),
            ok ==> final(self).groups_view() == old(self).groups_view().insert(
                group,
                if old(self).groups_view()[group].contains(conn) {
                    old(self).groups_view()[group]
                } else {
                    old(self).groups_view()[group].push(conn)
                },
            ),
            !ok ==> final(self).groups_view() == old(self).groups_view(),
            final(self).connections_view() == old(self).connections_view(),
            final(self).listen_view() == old(self).listen_view(),
            final(self).next_handle == old(self).next_handle,
    {
        let ghost before = self.groups_view();
        match self.poll_groups.remove(&group) {
            Some(mut g) => {
                let ghost gv = g.connections@;
                let found = contains_u32(g.connections.as_slice(), conn);
                if !found {
                    g.connections.push(conn);
                }
                let ghost after = g.connections@;
                self.poll_groups.insert(group, g);
                assert(self.groups_view() =~= before.insert(group, after));
                true
            },
            None => {
                assert(self.groups_view() =~= before);
                false
            },
        }
    }

    /// What `GetConnectionInfo` fills in for `conn`, or `None` when there is
    /// no such connection.
    pub fn get_connection_info(&self, conn: u32) -> (r: Option<ConnectionInfo>)
        requires
            self.wf(),
        ensures
            r is Some <==> self.connections@.contains_key(conn),
            r matches Some(info) ==> {
                &&& info.identity_remote@ == self.connections_view()[conn].remote_identity
                &&& info.user_data == self.connections_view()[conn].user_data
                &&& info.state == self.connections_view()[conn].state
                &&& info.end_reason == 0
            },
    {
        match self.connections.get(&conn) {
            Some(c) => Some(
                ConnectionInfo {
                    identity_remote: c.remote_identity,
                    user_data: c.user_data,
                    state: c.state,
                    end_reason: 0,
                },
            ),
            None => None,
        }
    }

    /// Sets the user data of connection `peer`; false when there is none.
    pub fn set_connection_user_data(&mut self, peer: u32, user_data: i64) -> (ok: bool)
        requires
            old(self).wf(),
        ensures
            final(self).wf(),
            ok == old(self).connections@.contains_key(peer),
            ok ==> final(self).connections_view() == with_user_data(old(self).connections_view(), peer, user_data),
            !ok ==> final(self).connections_view() == old(self).connections_view(),
            final(self).listen_view() == old(self).listen_view(),
            final(self).groups_view() == old(self).groups_view(),
            final(self).next_handle == old(self).next_handle,
    {
        let ghost before = self.connections_view();
        match self.connections.remove(&peer) {
            Some(mut c) => {
                c.user_data = user_data;
                self.connections.insert(peer, c);
                assert(self.connections_view() =~= before.insert(
                    peer,
                    ConnectionView { user_data, ..before[peer] },
                ));
                true
            },
            None => {
                assert(self.connections_view() =~= before);
                false
            },
        }
    }

    /// The user data of connection `peer`, or 0 when there is none.
    pub fn get_connection_user_data(&self, peer: u32) -> (d: i64)
        ensures
            d == user_data_of(self.connections_view(), peer),
    {
        match self.connections.get(&peer) {
            Some(c) => c.user_data,
            None => 0,
        }
    }

    /// The bytes written into a caller's buffer of `max_len` bytes for the
    /// name of connection `peer`: `Connection_<peer>`, truncated and
    /// terminated. `None` (false) for a buffer under one byte, or no such
    /// connection.
    pub fn get_connection_name(&self, peer: u32, max_len: i32) -> (r: Option<Vec<u8>>)
        ensures
            r is Some <==> max_len >= 1 && self.connections@.contains_key(peer),
            r matches Some(b) ==> b@ == c_string_in_buffer(connection_name(peer), max_len as nat),
    {
        if max_len < 1 {
            return None;
        }
        if !self.connections.contains_key(&peer) {
            return None;
        }
        let mut name: Vec<u8> = vec![67u8, 111, 110, 110, 101, 99, 116, 105, 111, 110, 95];
        let digits = decimal_bytes(peer as u64);
        append_bytes(&mut name, digits.as_slice());
        assert(name@ =~= connection_name(peer));
        Some(copy_c_string(name.as_slice(), max_len as usize))
    }
}

/// The counter's next handle names nothing yet.
pub proof fn lemma_next_handle_is_fresh(s: &NetworkingSockets)
    requires
        s.wf(),
    ensures
        s.is_fresh(s.next_handle),
{
}

/// User data reads back as the value last set.
pub proof fn lemma_user_data_round_trip(conns: Map<u32, ConnectionView>, peer: u32, user_data: i64)
    requires
        conns.contains_key(peer),
    ensures
        user_data_of(with_user_data(conns, peer, user_data), peer) == user_data,
{
}

/// A closed connection's user data reads as 0.
pub proof fn lemma_closed_connection_has_no_user_data(conns: Map<u32, ConnectionView>, peer: u32)
    ensures
        user_data_of(conns.remove(peer), peer) == 0,
{
}

/// Messages queue in the order they were sent, and their numbers count up
/// by one.
pub proof fn lemma_messages_queue_in_order(conns: Map<u32, ConnectionView>, conn: u32, a: Seq<u8>, b: Seq<u8>)
    requires
        conns.contains_key(conn),
    ensures
        ({
            let once = with_sent(conns, conn, a);
            let twice = with_sent(once, conn, b);
            &&& twice[conn].send_queue == conns[conn].send_queue.push(a).push(b)
            &&& twice[conn].send_queue.len() == once[conn].send_queue.len() + 1
        }),
{
}

/// A connection's name is `Connection_` followed by its handle in base 10:
/// the part after the prefix is a run of decimal digits that reads back as
/// the handle.
pub proof fn lemma_connection_name_names_handle(handle: u32)
    ensures
        connection_name(handle).take(11) == seq![67u8, 111, 110, 110, 101, 99, 116, 105, 111, 110, 95],
        connection_name(handle).len() > 11,
        crate::cbuf::all_decimal_digits(connection_name(handle).skip(11)),
        crate::cbuf::decimal_value(connection_name(handle).skip(11)) == handle,
{
    crate::cbuf::lemma_decimal_reads_back(handle as nat);
    assert(connection_name(handle).take(11) =~= seq![67u8, 111, 110, 110, 101, 99, 116, 105, 111, 110, 95]);
    assert(connection_name(handle).skip(11) =~= decimal(handle as nat));
}

} // verus!

