use oracle_steam::advanced::{
    record_ping, send_message_on_lane, AdvancedConnection, AdvancedConnections, ConnectionState,
    CryptoContext, NetworkSimulator,
};
use oracle_steam::client::{
    ApiLifecycle, AuthTicket, HeartbeatAction, IpAddress, ProtectionState, SocketAddress, SteamClient,
    SteamConnection, SteamPipe,
};
use oracle_steam::protocol::{
    AuthService, FriendsService, LobbyFilter, MatchmakingService, SteamMessage, TcpTransport,
    BASE_STEAM_ID, PROTOCOL_VERSION,
};
use oracle_steam::sockets::{
    remote_addr_of, NetworkingSockets, SteamNetworkingIPAddr, SteamNetworkingIdentity, RESULT_FAIL,
    RESULT_OK, STATE_CONNECTED, STATE_CONNECTING,
};

fn mapped(a: u8, b: u8, c: u8, d: u8, port: u16) -> SteamNetworkingIPAddr {
    let mut ipv6 = [0u8; 16];
    ipv6[10] = 0xff;
    ipv6[11] = 0xff;
    ipv6[12] = a;
    ipv6[13] = b;
    ipv6[14] = c;
    ipv6[15] = d;
    SteamNetworkingIPAddr { ipv6, port }
}

fn lane_connection(handle: u32) -> AdvancedConnection {
    AdvancedConnection {
        handle,
        remote_ip: [10, 0, 0, 2],
        remote_port: 27015,
        state: ConnectionState::Connected,
        send_queue: Vec::new(),
        recv_queue: Vec::new(),
        ping_ms: 0,
        lane_config: Vec::new(),
    }
}

#[test]
fn ipv4_mapped_addresses_are_read_back() {
    let r = remote_addr_of(&mapped(192, 168, 1, 20, 7777));
    assert_eq!(r.ip, [192, 168, 1, 20]);
    assert_eq!(r.port, 7777);
    let other = SteamNetworkingIPAddr { ipv6: [1u8; 16], port: 9 };
    let r = remote_addr_of(&other);
    assert_eq!(r.ip, [127, 0, 0, 1]);
    assert_eq!(r.port, 27015);
}

#[test]
fn sockets_connect_accept_send_close() {
    let mut s = NetworkingSockets::new();
    assert_eq!(s.connect_by_ip_address(None), 0);
    let listen = s.create_listen_socket_ip(None);
    assert_eq!(listen, 1);
    assert_eq!(s.listen_sockets.get(&listen).unwrap().local_port, 27015);
    let c = s.connect_by_ip_address(Some(&mapped(10, 1, 2, 3, 4000)));
    assert_eq!(c, 2);
    let conn = s.connections.get(&c).unwrap();
    assert_eq!(conn.state, STATE_CONNECTING);
    assert_eq!(conn.remote_addr.ip, [10, 1, 2, 3]);
    assert_eq!(s.accept_connection(c), RESULT_OK);
    assert_eq!(s.connections.get(&c).unwrap().state, STATE_CONNECTED);
    assert_eq!(s.accept_connection(99), RESULT_FAIL);
    assert_eq!(s.send_message_to_connection(c, b"one"), Some(1));
    assert_eq!(s.send_message_to_connection(c, b"two"), Some(2));
    assert_eq!(s.send_message_to_connection(c, b""), None);
    assert_eq!(s.send_message_to_connection(99, b"x"), None);
    assert_eq!(s.connections.get(&c).unwrap().send_queue, vec![b"one".to_vec(), b"two".to_vec()]);
    assert_eq!(s.receive_messages_on_connection(c, 10), 0);
    assert!(s.close_connection(c));
    assert!(!s.close_connection(c));
    assert!(s.close_listen_socket(listen));
}

#[test]
fn sockets_user_data_names_and_groups() {
    let mut s = NetworkingSockets::new();
    let id = SteamNetworkingIdentity {
        identity_type: 16,
        steam_id: 42,
        ip_addr: [0; 16],
        generic_string: [0; 128],
        generic_bytes: [0; 32],
    };
    let c = s.connect_p2p(Some(&id));
    assert_eq!(c, 1);
    assert_eq!(s.connect_p2p(None), 0);
    assert_eq!(s.get_connection_user_data(c), 0);
    assert!(s.set_connection_user_data(c, -5));
    assert_eq!(s.get_connection_user_data(c), -5);
    assert!(!s.set_connection_user_data(77, 1));
    let info = s.get_connection_info(c).unwrap();
    assert_eq!(info.identity_remote.steam_id, 42);
    assert_eq!(info.user_data, -5);
    assert_eq!(info.end_reason, 0);
    assert_eq!(s.get_connection_name(c, 64), Some(b"Connection_1\0".to_vec()));
    assert_eq!(s.get_connection_name(c, 5), Some(b"Conn\0".to_vec()));
    assert_eq!(s.get_connection_name(c, 0), None);
    assert_eq!(s.get_connection_name(9, 64), None);
    let g = s.create_poll_group();
    assert_eq!(g, 2);
    assert!(s.set_connection_poll_group(c, g));
    assert!(s.set_connection_poll_group(c, g));
    assert_eq!(s.poll_groups.get(&g).unwrap().connections, vec![c]);
    assert!(!s.set_connection_poll_group(c, 50));
    assert!(s.destroy_poll_group(g));
    assert!(!s.destroy_poll_group(g));
    s.close_connection(c);
    assert_eq!(s.get_connection_user_data(c), 0);
}

#[test]
fn lane_messages_queue_with_their_lane() {
    let mut conns = AdvancedConnections::new();
    conns.add_connection(lane_connection(7));
    assert!(send_message_on_lane(&mut conns, 7, vec![1, 2, 3], 4, 8, 1234).is_ok());
    let c = conns.connections.get(&7).unwrap();
    assert_eq!(c.send_queue.len(), 1);
    assert_eq!(c.send_queue[0].data, vec![1, 2, 3]);
    assert_eq!(c.send_queue[0].channel, 4);
    assert_eq!(c.send_queue[0].lane_id, 4);
    assert_eq!(c.send_queue[0].flags, 8);
    assert_eq!(c.send_queue[0].timestamp, 1234);
    let err = send_message_on_lane(&mut conns, 8, vec![1], 0, 0, 0).unwrap_err();
    assert_eq!(err, "Invalid connection handle");
    assert!(record_ping(&mut conns, 7, 123));
    assert_eq!(conns.connections.get(&7).unwrap().ping_ms, 50 + 123 % 100);
    assert!(!record_ping(&mut conns, 8, 1));
}

#[test]
fn network_simulator_delays() {
    let mut sim = NetworkSimulator::new();
    assert_eq!(sim.get_delay(), 0);
    sim.latency_ms = 40;
    assert_eq!(sim.delay_with(7), 40);
    sim.jitter_ms = 10;
    assert_eq!(sim.delay_with(17), 47);
    let d = sim.get_delay();
    assert!((40..50).contains(&d));
}

#[test]
fn crypto_context_passes_bytes_through() {
    let mut c = CryptoContext::new();
    assert_eq!(c.sequence_num, 0);
    let sealed = c.encrypt(b"secret");
    assert_eq!(sealed, b"secret".to_vec());
    assert_eq!(c.sequence_num, 1);
    assert_eq!(c.decrypt(&sealed), Ok(b"secret".to_vec()));
}

#[test]
fn logon_message_hashes_the_password() {
    match AuthService::logon_message("gordon", "abc") {
        SteamMessage::ClientLogon { username, password_hash, protocol_version } => {
            assert_eq!(username, "gordon");
            assert_eq!(protocol_version, PROTOCOL_VERSION);
            let expected: Vec<u8> = vec![
                0xba, 0x78, 0x16, 0xbf, 0x8f, 0x01, 0xcf, 0xea, 0x41, 0x41, 0x40, 0xde, 0x5d, 0xae,
                0x22, 0x23, 0xb0, 0x03, 0x61, 0xa3, 0x96, 0x17, 0x7a, 0x9c, 0xb4, 0x10, 0xff, 0x61,
                0xf2, 0x00, 0x15, 0xad,
            ];
            assert_eq!(password_hash, expected);
        }
        _ => panic!("expected a logon message"),
    }
}

#[test]
fn auth_service_login_states() {
    let mut a = AuthService::new();
    assert_eq!(a.refresh_session().unwrap_err(), "Not logged in");
    assert_eq!(a.login_with(b"{}", 1_000_042), Ok(BASE_STEAM_ID + 42));
    assert_eq!(a.session_token, Some(vec![1, 2, 3, 4]));
    assert_eq!(a.crypto.sequence_num, 1);
    assert!(a.refresh_session().is_ok());
    let id = a.login(b"{}").unwrap();
    assert!(id >= BASE_STEAM_ID && id < BASE_STEAM_ID + 1_000_000);
    let mut b = AuthService::new();
    assert_eq!(b.login_with_ticket(&[1, 2]), Ok(BASE_STEAM_ID));
    assert!(b.session_token.is_none());
}

#[test]
fn services_build_their_messages() {
    let mut f = FriendsService::new();
    let list = f.sync_friends_list().unwrap();
    assert_eq!(list.len(), 1);
    assert_eq!(list[0].steam_id, 76561198000000001);
    assert_eq!(list[0].persona_name, "TestFriend1");
    assert_eq!(list[0].avatar_hash, "abc123");
    match FriendsService::chat_message(9, "hey".to_string()) {
        SteamMessage::ClientFriendMsg { recipient, message, chat_entry_type } => {
            assert_eq!((recipient, message.as_str(), chat_entry_type), (9, "hey", 1));
        }
        _ => panic!("expected a chat message"),
    }
    match FriendsService::persona_state_message(3, 1) {
        SteamMessage::ClientPersonaState { player_name, game_id, .. } => {
            assert_eq!(player_name, "OraclePlayer");
            assert_eq!(game_id, 0);
        }
        _ => panic!("expected a persona message"),
    }
    let filter = LobbyFilter { key: "mode".to_string(), value: "ffa".to_string(), comparison: 0 };
    match MatchmakingService::lobby_list_request(480, vec![filter]) {
        SteamMessage::ClientRequestLobbyList { app_id, filters } => {
            assert_eq!(app_id, 480);
            assert_eq!(filters.len(), 1);
        }
        _ => panic!("expected a lobby list request"),
    }
    match MatchmakingService::server_list_request(480, "eu".to_string()) {
        SteamMessage::ClientServerList { app_id, region } => assert_eq!((app_id, region.as_str()), (480, "eu")),
        _ => panic!("expected a server list request"),
    }
}

#[test]
fn tcp_frames_carry_a_big_endian_length() {
    let mut t = TcpTransport::new();
    assert_eq!(t.send(b"abc").unwrap_err(), "Not connected");
    assert_eq!(t.receive(b"abc").unwrap_err(), "Not connected");
    t.set_connected();
    let frame = t.send(b"abc").unwrap();
    assert_eq!(frame, vec![0, 0, 0, 3, b'a', b'b', b'c']);
    assert_eq!(TcpTransport::frame_length([0, 0, 0, 3]), 3);
    assert_eq!(TcpTransport::frame_length([1, 2, 3, 4]), 0x01020304);
    assert_eq!(t.receive(b"abc"), Ok(b"abc".to_vec()));
}

#[test]
fn pipes_clients_and_client_tickets() {
    assert_eq!(SteamPipe::new(3).id(), 3);
    assert_eq!(SteamClient::new(76561198000000001).steam_id(), 76561198000000001);
    let t = AuthTicket::generate_with(0x0102030405060708, 480, 9, &[0xaa; 16]);
    assert_eq!(t.handle, 9);
    assert_eq!(&t.data[0..8], &[8, 7, 6, 5, 4, 3, 2, 1]);
    assert_eq!(&t.data[8..12], &[0xe0, 0x01, 0, 0]);
    assert_eq!(&t.data[12..], &[0xaa; 16]);
    let r = AuthTicket::generate(1, 2);
    assert_eq!(r.data.len(), 28);
    assert_eq!(&r.data[0..12], &[1, 0, 0, 0, 0, 0, 0, 0, 2, 0, 0, 0]);
}

#[test]
fn connection_record_and_lifecycle() {
    let mut c = SteamConnection::new();
    assert!(!c.connected);
    assert_eq!(c.remote_addr.port, 27015);
    let addr = SocketAddress { ip: IpAddress::V4([10, 0, 0, 1]), port: 1 };
    assert!(c.connect(addr).is_ok());
    assert!(c.connected);
    c.disconnect();
    assert!(!c.connected);
    let mut api = ApiLifecycle::new();
    assert!(api.init());
    assert!(api.init());
    api.shutdown();
    assert!(!api.initialized);
    let mut p = ProtectionState::new();
    assert!(p.next_heartbeat() == HeartbeatAction::Stop);
    p.start();
    assert!(p.next_heartbeat() == HeartbeatAction::Beat);
    assert!(p.stop());
    assert!(!p.stop());
}
