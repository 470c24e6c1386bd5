use oracle_steam::friends::FriendsState;
use oracle_steam::gameserver::{
    server_auth_ticket, user_steam_id_from, GameServerState, GameServerStats, ServerText,
    FIRST_USER_STEAM_ID, GAME_SERVER_STEAM_ID,
};
use oracle_steam::htmlsurface::BrowserState;
use oracle_steam::input::{digital_action_data, ActionRegistry, InputState};
use oracle_steam::inventory::{InventoryState, ResultItems, SteamItemDetails_t, RESULT_OK};
use oracle_steam::music::{status_code, status_from_code, MusicRemoteState, MusicState, PlaybackStatus};
use oracle_steam::parental::ParentalSettings;

#[test]
fn game_server_defaults_and_init() {
    let mut gs = GameServerState::new();
    assert_eq!(gs.steam_id, GAME_SERVER_STEAM_ID);
    assert!(!gs.logged_on);
    assert!(gs.dedicated);
    assert_eq!(gs.product, "oracle_steam");
    assert_eq!(gs.server_name, "Oracle Server");
    assert_eq!(gs.max_players, 32);
    assert_eq!(gs.region, 255);
    assert_eq!(gs.game_port, 27015);
    assert!(gs.init_game_server(0x7f000001, 27016, 27017));
    assert!(gs.logged_on);
    assert_eq!((gs.public_ip, gs.game_port, gs.query_port), (0x7f000001, 27016, 27017));
    gs.set_text(ServerText::MapName, "de_dust2");
    assert_eq!(gs.map_name, "de_dust2");
    gs.set_logged_on(false);
    assert!(!gs.logged_on);
}

#[test]
fn game_server_ticket_and_user_ids() {
    assert_eq!(server_auth_ticket(100), b"ORACLE_GAMESERVER_TICKET".to_vec());
    assert_eq!(server_auth_ticket(6), b"ORACLE".to_vec());
    assert_eq!(server_auth_ticket(-1), b"ORACLE_GAMESERVER_TICKET".to_vec());
    assert_eq!(user_steam_id_from(1_000_005), FIRST_USER_STEAM_ID + 5);
}

#[test]
fn game_server_stats_round_trip() {
    let mut st = GameServerStats::new();
    assert_eq!(st.get_user_stat_int(7, "kills"), None);
    assert!(st.set_user_stat_int(7, "kills", 12));
    assert_eq!(st.get_user_stat_int(7, "kills"), Some(12));
    assert_eq!(st.get_user_stat_int(7, "deaths"), None);
    assert!(st.set_user_stat_int(7, "kills", 13));
    assert_eq!(st.get_user_stat_int(7, "kills"), Some(13));
    assert_eq!(st.get_user_achievement(8, "A"), None);
    assert!(!st.clear_user_achievement(8, "A"));
    assert!(st.set_user_achievement(8, "A"));
    assert_eq!(st.get_user_achievement(8, "A"), Some(true));
    assert!(st.clear_user_achievement(8, "A"));
    assert_eq!(st.get_user_achievement(8, "A"), Some(false));
    st.send_user_disconnect(7);
    assert_eq!(st.get_user_stat_int(7, "kills"), None);
    st.set_key_value("mode", "ffa");
    st.clear_all_key_values();
}

#[test]
fn friends_defaults() {
    let f = FriendsState::new();
    assert_eq!(f.friend_count(), 2);
    assert_eq!(f.friend_by_index(0), 76561198000000001);
    assert_eq!(f.friend_by_index(1), 76561198000000002);
    assert_eq!(f.friend_by_index(2), 0);
    assert_eq!(f.friend_by_index(-1), 0);
    assert_eq!(f.friend_relationship(76561198000000001), 3);
    assert_eq!(f.friend_relationship(5), 0);
    assert!(f.has_friend(76561198000000002));
    assert_eq!(f.friend_persona_state(76561198000000002), 3);
    assert_eq!(f.friend_steam_level(76561198000000002), 25);
    assert_eq!(f.friend_persona_name_buffer(76561198000000001), b"TestFriend1\0".to_vec());
    assert_eq!(f.friend_persona_name_buffer(5), b"Unknown\0".to_vec());
    let (info, playing) = f.friend_game_played(76561198000000002).unwrap();
    assert_eq!(info.game_id, 730);
    assert!(playing);
    let (_, idle) = f.friend_game_played(76561198000000001).unwrap();
    assert!(!idle);
    assert!(f.friend_game_played(5).is_none());
    assert!(f.player_nickname_buffer(76561198000000001).is_none());
    assert_eq!(f.clan_count(), 0);
    assert_eq!(f.clan_by_index(0), 0);
    assert_eq!(f.clan_name_buffer(9), b"Unknown Clan\0".to_vec());
    assert_eq!(f.persona_name_buffer(), b"Player\0".to_vec());
}

#[test]
fn persona_name_and_rich_presence() {
    let mut f = FriendsState::new();
    assert_eq!(f.set_persona_name(Some("Gordon")), 1);
    assert_eq!(f.persona_name_buffer(), b"Gordon\0".to_vec());
    assert_eq!(f.set_persona_name(None), 1);
    assert_eq!(f.persona_name_buffer(), b"Gordon\0".to_vec());
    let long = "x".repeat(300);
    f.set_persona_name(Some(&long));
    assert_eq!(f.persona_name_buffer().len(), 256);
    assert!(f.set_rich_presence(Some("status"), Some("In menu")));
    assert_eq!(f.rich_presence.get(&"status".to_string()), Some(&"In menu".to_string()));
    assert!(f.set_rich_presence(Some("status"), Some("")));
    assert!(!f.rich_presence.contains_key(&"status".to_string()));
    f.set_rich_presence(Some("a"), Some("1"));
    f.clear_rich_presence();
    assert_eq!(f.rich_presence.len(), 0);
    assert_eq!(f.friend_rich_presence_buffer(76561198000000001, "status"), b"\0".to_vec());
    assert_eq!(f.friend_rich_presence_key_count(76561198000000001), 0);
    assert!(f.friend_rich_presence_key_by_index(76561198000000001, 0).is_none());
    assert!(f.reply_to_friend_message(76561198000000001, Some("hi"), 10));
}

#[test]
fn friend_rich_presence_keys_by_index() {
    let mut f = FriendsState::new();
    let friend = 76561198000000002u64;
    f.friends[1].rich_presence.insert("status".to_string(), "Playing".to_string());
    f.friends[1].rich_presence.insert("score".to_string(), "10".to_string());
    f.friends[1].rich_presence.insert("status".to_string(), "Idle".to_string());
    assert_eq!(f.friend_rich_presence_key_count(friend), 2);
    assert_eq!(f.friend_rich_presence_key_by_index(friend, 0), Some(b"status\0".to_vec()));
    assert_eq!(f.friend_rich_presence_key_by_index(friend, 1), Some(b"score\0".to_vec()));
    assert!(f.friend_rich_presence_key_by_index(friend, 2).is_none());
    assert!(f.friend_rich_presence_key_by_index(friend, -1).is_none());
    assert!(f.friend_rich_presence_key_by_index(1, 0).is_none());
    let name_before = f.persona_name.clone();
    assert!(f.reply_to_friend_message(friend, None, 7));
    assert_eq!(f.persona_name, name_before);
    assert_eq!(f.chat_messages.last().unwrap().message, "");
}

#[test]
fn browsers_and_handles() {
    let mut b = BrowserState::new();
    assert_eq!(b.create_browser(), 1);
    assert_eq!(b.create_browser(), 1);
    assert!(b.browsers.contains_key(&1));
    assert!(b.browsers.contains_key(&2));
    b.load_url(1, "https://example.com");
    assert_eq!(b.browsers.get(&1).unwrap().url, "https://example.com");
    b.set_size(1, 800, 600);
    assert_eq!(b.browsers.get(&1).unwrap().width, 800);
    b.remove_browser(1);
    assert!(!b.browsers.contains_key(&1));
    assert_eq!(b.next_browser_handle(), 3);
    assert!(b.shutdown());
    assert!(b.browsers.is_empty());
}

#[test]
fn parental_settings_block_nothing() {
    let p = ParentalSettings::new();
    assert!(!p.enabled);
    assert!(!p.is_app_blocked(480));
    assert!(!p.is_feature_blocked(1));
    let q = ParentalSettings { enabled: true, locked: true, blocked_apps: vec![480], blocked_features: vec![2] };
    assert!(q.is_app_blocked(480));
    assert!(q.is_feature_blocked(2));
}

#[test]
fn music_status_codes_and_steps() {
    assert_eq!(status_code(PlaybackStatus::Paused), 2);
    assert!(status_from_code(1) == PlaybackStatus::Playing);
    assert!(status_from_code(42) == PlaybackStatus::Undefined);
    let mut m = MusicState::new();
    assert!(m.playback_status == PlaybackStatus::Idle);
    m.play();
    assert!(m.playing);
    m.pause();
    assert!(!m.playing && m.playback_status == PlaybackStatus::Paused);
    m.play_previous();
    assert_eq!(m.current_entry, 0);
    m.play_next();
    assert_eq!(m.current_entry, 0);
    assert!(m.update_playback_status(3));
    assert!(m.playback_status == PlaybackStatus::Idle);
    let mut r = MusicRemoteState::new();
    assert_eq!(r.display_name, "Oracle Steam Music");
    assert!(r.register("Remote"));
    assert!(r.registered && r.is_current_remote);
    assert!(r.deregister());
    assert!(!r.registered);
    assert!(r.set_display_name("Other"));
    assert_eq!(r.display_name, "Other");
}

#[test]
fn input_action_handles_are_stable_and_distinct() {
    let mut reg = ActionRegistry::new();
    let a = reg.handle_for("jump");
    let b = reg.handle_for("fire");
    assert_eq!(a, 1);
    assert_eq!(b, 2);
    assert_eq!(reg.handle_for("jump"), 1);
    let mut s = InputState::new();
    assert_eq!(s.connected_controllers(), vec![1u64]);
    assert_eq!(s.controller_for_gamepad_index(0), 1);
    assert_eq!(s.gamepad_index_for_controller(1), 0);
    s.activate_action_set(4);
    assert_eq!(s.active_action_set, 4);
    assert!(s.shutdown());
    assert!(s.connected_controllers().is_empty());
    assert!(s.init());
    let d = digital_action_data(1, 2);
    assert!(!d.state && d.active);
}

#[test]
fn inventory_generate_consume_and_results() {
    let mut inv = InventoryState::new();
    let h = inv.generate_items_with_ids(&[100, 200], &[3, 1], &[11, 22]);
    assert_eq!(h, 1);
    assert_eq!(inv.result_status(h), RESULT_OK);
    match inv.result_items(h, false, 0) {
        Some(ResultItems::Count(n)) => assert_eq!(n, 2),
        _ => panic!("expected a count"),
    }
    assert!(inv.consume_item(11, 2));
    assert_eq!(inv.items[0].quantity, 1);
    assert!(!inv.consume_item(11, 5));
    assert!(inv.consume_item(11, 1));
    assert_eq!(inv.items.len(), 1);
    assert_eq!(inv.items[0].instance_id, 22);
    let all = inv.get_all_items();
    assert_eq!(all, 2);
    let snap = inv.result_snapshot(all).unwrap();
    assert_eq!(snap.len(), 1);
    assert_eq!(snap[0].item_id, 22);
    let by_id = inv.get_items_by_id(&[99]);
    assert_eq!(inv.result_snapshot(by_id).unwrap().len(), 0);
    inv.destroy_result(all);
    assert!(!inv.has_result(all));
    let d = inv.deserialize_result(vec![SteamItemDetails_t { item_id: 5, definition: 1, quantity: 1, flags: 0 }]);
    assert_eq!(inv.result_snapshot(d).unwrap()[0].item_id, 5);
    assert_eq!(inv.next_result_handle(), d + 1);
}

#[test]
fn inventory_exchange_and_transfer() {
    let mut inv = InventoryState::new();
    inv.generate_items_with_ids(&[1, 2], &[5, 1], &[10, 20]);
    let h = inv.exchange_items_with_ids(&[3], &[1], &[30], &[10], &[5]);
    assert_eq!(inv.result_snapshot(h).unwrap()[0].item_id, 30);
    let ids: Vec<u64> = inv.items.iter().map(|it| it.instance_id).collect();
    assert_eq!(ids, vec![20, 30]);
    assert!(inv.transfer_item_quantity(20, 1, 30));
    let ids: Vec<u64> = inv.items.iter().map(|it| it.instance_id).collect();
    assert_eq!(ids, vec![20, 30]);
    assert_eq!(inv.items[0].quantity, 0);
    assert_eq!(inv.items[1].quantity, 2);
    assert!(!inv.transfer_item_quantity(99, 1, 30));
}
