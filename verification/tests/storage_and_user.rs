use hmac::Mac;
use oracle_steam::interfaces::{
    beta_info_output, check_file_signature_result, copy_first, dlc_data_output, entered_text_output,
    file_details_result, filtered_text_output, friend_game_info_output, group_members_output,
    image_data_output, install_dir_output, installed_depots_output, launch_command_line_output,
    lobby_chat_entry_output, lobby_created, lobby_data_by_index_output, lobby_entered,
    lobby_match_list, set_persona_name_response, text_into_buffer, total_betas, BetaInfo, DlcData,
    FileDetails, GamePlayed, LobbyChatEntry,
};
use oracle_steam::storage::{CloudStorage, CLOUD_QUOTA_BYTES};
use oracle_steam::tools::{
    common_games, generated_steam_id_with, generated_username_with, is_blank, menu_choice,
    ticket_length, ticket_text, trimmed_bounds, user_config_text, MenuChoice,
};
use oracle_steam::ugc::{UgcState, INSTALLED_SIZE, ITEM_STATE_SUBSCRIBED_INSTALLED};
use oracle_steam::user::{
    begin_auth_session, build_auth_ticket_with, decompressed_voice_size, is_private_ipv4,
    EncryptedAppTicketResponse_t, UserState, TICKET_LEN,
};
use oracle_steam::utils::{filter_text, image_rgba, opf_string_for_app, UtilsState, IMAGE_BYTES};

#[test]
fn cloud_write_read_delete_and_quota() {
    let mut c = CloudStorage::new();
    assert_eq!(c.get_quota(), (CLOUD_QUOTA_BYTES, CLOUD_QUOTA_BYTES));
    assert!(!c.file_write("empty.sav", b""));
    assert!(c.file_write("a.sav", b"hello"));
    assert_eq!(c.get_quota(), (CLOUD_QUOTA_BYTES, CLOUD_QUOTA_BYTES - 5));
    assert_eq!(c.file_read("a.sav", 3), Some(b"hel".to_vec()));
    assert_eq!(c.file_read("a.sav", 100), Some(b"hello".to_vec()));
    assert_eq!(c.file_read("a.sav", 0), Some(Vec::new()));
    assert_eq!(c.file_read("missing.sav", 10), None);
    assert!(c.file_exists("a.sav"));
    assert_eq!(c.file_size("a.sav"), Some(5));
    assert_eq!(c.file_count(), 1);
    let (name, size) = c.file_name_and_size(0).unwrap();
    assert_eq!(name, b"a.sav\0".to_vec());
    assert_eq!(size, 5);
    assert!(c.file_name_and_size(1).is_none());
    assert!(c.file_name_and_size(-1).is_none());
    assert!(c.file_write("a.sav", b"hi"));
    assert_eq!(c.used, 7);
    assert!(c.file_delete("a.sav"));
    assert_eq!(c.used, 5);
    assert!(!c.file_exists("a.sav"));
    assert!(c.file_delete("a.sav"));
}

#[test]
fn cloud_quota_refuses_oversized_writes() {
    let mut c = CloudStorage::new();
    c.used = CLOUD_QUOTA_BYTES - 2;
    assert!(!c.file_write("big.sav", b"abc"));
    assert!(c.file_write("ok.sav", b"ab"));
    assert_eq!(c.get_quota().1, 0);
}

#[test]
fn cloud_disk_cache_and_forget() {
    let mut c = CloudStorage::new();
    assert_eq!(c.cache_disk_file("d.sav", b"from disk".to_vec(), 4), b"from".to_vec());
    assert_eq!(c.used, 0);
    assert!(c.file_exists("d.sav"));
    assert!(c.file_forget("d.sav"));
    assert!(!c.file_exists("d.sav"));
}

#[test]
fn workshop_queries_and_updates() {
    let mut u = UgcState::new();
    let q = u.create_query(3);
    assert_eq!(q, 1);
    assert_eq!(u.get_query_num_results(q), 0);
    assert!(u.get_query_result(q, 0).is_none());
    assert_eq!(u.get_query_num_results(99), 0);
    let up = u.start_item_update(555);
    assert_eq!(up, 2);
    assert!(u.set_item_title(up, "Title"));
    assert!(u.set_item_description(up, "Desc"));
    assert!(u.set_item_content(up, "content/"));
    assert!(u.set_item_preview(up, "p.png"));
    assert!(!u.set_item_title(99, "x"));
    let upd = u.updates.get(&up).unwrap();
    assert_eq!(upd.title.as_deref(), Some("Title"));
    assert_eq!(upd.preview_file.as_deref(), Some("p.png"));
    assert!(u.release_query(q));
    assert!(!u.release_query(q));
    assert_eq!(u.next_handle(), 3);
}

#[test]
fn workshop_subscriptions() {
    let mut u = UgcState::new();
    assert_eq!(u.subscribe_item(7), 1);
    u.subscribe_item(8);
    u.subscribe_item(7);
    assert_eq!(u.num_subscribed_items(), 3);
    assert_eq!(u.get_subscribed_items(2), vec![7, 8]);
    assert_eq!(u.get_item_state(7), ITEM_STATE_SUBSCRIBED_INSTALLED);
    let info = u.get_item_install_info(7, 64).unwrap();
    assert_eq!(info.size_on_disk, INSTALLED_SIZE);
    assert_eq!(info.folder, Some(b"workshop/content/7\0".to_vec()));
    assert_eq!(info.timestamp, 0);
    assert!(u.get_item_install_info(7, 0).unwrap().folder.is_none());
    assert_eq!(u.get_item_install_info(7, 5).unwrap().folder, Some(b"work\0".to_vec()));
    assert_eq!(u.unsubscribe_item(7), 1);
    assert_eq!(u.subscribed, vec![8]);
    assert_eq!(u.get_item_state(7), 0);
    assert!(u.get_item_install_info(7, 64).is_none());
}

#[test]
fn auth_ticket_layout_and_signature() {
    let t = build_auth_ticket_with(76561198000000001, 480, 1_700_000_000, 0x11223344, &[7u8; 16]);
    assert_eq!(t.len(), TICKET_LEN);
    assert_eq!(&t[0..4], &[0, 0, 1, 0]);
    assert_eq!(&t[4..12], &76561198000000001u64.to_le_bytes());
    assert_eq!(&t[12..16], &480u32.to_le_bytes());
    assert_eq!(&t[16..24], &1_700_000_000u64.to_le_bytes());
    assert_eq!(&t[24..28], &[0x44, 0x33, 0x22, 0x11]);
    assert_eq!(&t[28..44], &[7u8; 16]);
    let mut mac = <hmac::Hmac<sha2::Sha256> as Mac>::new_from_slice(b"oracle_steam_secret_480").unwrap();
    mac.update(&t[0..44]);
    assert_eq!(&t[44..], mac.finalize().into_bytes().as_slice());
}

#[test]
fn session_tickets_are_handed_out_and_cancelled() {
    let mut u = UserState::new();
    let (bad, none) = u.get_auth_session_ticket(0, 1, 2, 3);
    assert_eq!(bad, 0);
    assert!(none.is_empty());
    let (h, copy) = u.get_auth_session_ticket(100, 76561198000000001, 480, 5);
    assert_eq!(h, 1);
    assert_eq!(copy.len(), TICKET_LEN);
    assert_eq!(copy, u.tickets.get(&h).unwrap().data);
    let (h2, short) = u.get_auth_session_ticket(10, 1, 2, 3);
    assert_eq!(h2, 2);
    assert_eq!(short.len(), 10);
    u.cancel_auth_ticket(h);
    assert!(!u.tickets.contains_key(&h));
    assert!(u.tickets.contains_key(&h2));
}

#[test]
fn voice_buffer_sizes() {
    let mut u = UserState::new();
    u.start_voice_recording();
    assert!(u.voice_recording);
    assert_eq!(u.get_available_voice(), (0, 0, 0));
    u.voice_buffer = vec![1, 2, 3];
    assert_eq!(u.get_available_voice(), (1, 3, 6));
    let (bytes, unc) = u.get_voice(2, 100);
    assert_eq!(bytes, vec![1, 2]);
    assert_eq!(unc, 4);
    assert_eq!(u.get_voice(10, 5).1, 5);
    u.stop_voice_recording();
    assert!(!u.voice_recording);
    assert_eq!(decompressed_voice_size(10, 100), 20);
    assert_eq!(decompressed_voice_size(10, 15), 15);
}

#[test]
fn encrypted_ticket_and_store_url() {
    let mut u = UserState::new();
    assert!(u.get_encrypted_app_ticket(10).is_none());
    assert!(!u.store_encrypted_ticket("not base64!"));
    assert!(u.store_encrypted_ticket("AQIDBA=="));
    assert_eq!(u.get_encrypted_app_ticket(10), Some(vec![1, 2, 3, 4]));
    assert_eq!(u.get_encrypted_app_ticket(2), Some(vec![1, 2]));
    assert_eq!(u.record_encrypted_ticket_request(10), 11);
    assert_eq!(u.encrypted_ticket_request, 11);
    assert_eq!(u.request_store_auth_url_with(Some("https://x"), 7, 255), 1);
    let expected = b"https://store.steampowered.com/login/?redir=https://x&steamid=7&token=ff".to_vec();
    assert_eq!(u.store_auth_url, expected);
    let mut with_nul = expected.clone();
    with_nul.push(0);
    assert_eq!(u.get_store_auth_url(200), Some(with_nul));
    assert_eq!(u.get_store_auth_url(6), Some(b"https\0".to_vec()));
    assert_eq!(u.get_store_auth_url(0), None);
    u.request_store_auth_url_with(None, 1, 0);
    assert_eq!(
        u.store_auth_url,
        b"https://store.steampowered.com/login/?redir=about:blank&steamid=1&token=0".to_vec()
    );
}

#[test]
fn user_helpers() {
    assert_eq!(begin_auth_session(false, 10), 3);
    assert_eq!(begin_auth_session(true, 0), 3);
    assert_eq!(begin_auth_session(true, 10), 0);
    assert!(is_private_ipv4([10, 1, 2, 3]));
    assert!(is_private_ipv4([172, 16, 0, 1]));
    assert!(!is_private_ipv4([172, 32, 0, 1]));
    assert!(is_private_ipv4([192, 168, 0, 1]));
    assert!(!is_private_ipv4([8, 8, 8, 8]));
    assert_eq!(EncryptedAppTicketResponse_t::callback_id(), 154);
}

#[test]
fn utils_text_and_images() {
    let mut u = UtilsState::new();
    assert!(u.is_overlay_enabled());
    assert_eq!(u.entered_gamepad_text_length(), 0);
    u.gamepad_text = "hello".to_string();
    assert_eq!(u.entered_gamepad_text_length(), 5);
    assert_eq!(u.entered_gamepad_text(3), Some(b"he\0".to_vec()));
    assert_eq!(u.entered_gamepad_text(0), None);
    assert!(u.dismiss_gamepad_text_input());
    assert_eq!(u.entered_gamepad_text_length(), 0);
    assert_eq!(filter_text(b"some text", 5), Some((b"some\0".to_vec(), 4)));
    assert_eq!(filter_text(b"x", 0), None);
    let img = image_rgba(16384).unwrap();
    assert_eq!(img.len(), IMAGE_BYTES);
    assert!(img.iter().all(|b| *b == 0xff));
    assert!(image_rgba(16383).is_none());
    assert_eq!(opf_string_for_app(19), Some((b"Oracle Steam Video\0".to_vec(), 19)));
    assert_eq!(opf_string_for_app(18), None);
    assert!(opf_string_for_app(-1).is_some());
}

#[test]
fn interface_outputs_for_apps() {
    let dlc = DlcData { app_id: 10, available: true, name: "Expansion".to_string() };
    let (id, avail, name) = dlc_data_output(Some(&dlc), 4).unwrap();
    assert_eq!((id, avail), (10, true));
    assert_eq!(name, Some(b"Exp\0".to_vec()));
    assert!(dlc_data_output(Some(&dlc), 0).unwrap().2.is_none());
    assert!(dlc_data_output(None, 10).is_none());
    let beta = BetaInfo {
        app_id: 1,
        flags: 2,
        build_id: "b123".to_string(),
        description: "Beta".to_string(),
        password_required: true,
    };
    let out = beta_info_output(Some(&beta), 10, 3).unwrap();
    assert_eq!(out.build_id, Some(b"b123\0".to_vec()));
    assert_eq!(out.description, Some(b"Be\0".to_vec()));
    assert!(out.password_required);
    assert_eq!(total_betas(2, 3), 5);
    assert_eq!(installed_depots_output(&[1, 2, 3], 2), vec![1, 2]);
    assert_eq!(install_dir_output(Some("C:/g"), 10), (b"C:/g\0".to_vec(), 4));
    assert_eq!(install_dir_output(None, 10), (Vec::new(), 0));
    assert_eq!(launch_command_line_output(Some("-x"), 2), (b"-\0".to_vec(), 1));
    assert_eq!(launch_command_line_output(Some("-x"), 0), (Vec::new(), 0));
    let ok = file_details_result(Some(FileDetails { size: 9, sha: [1; 20], flags: 3 }));
    assert_eq!((ok.result, ok.file_size, ok.flags), (1, 9, 3));
    let fail = file_details_result(None);
    assert_eq!((fail.result, fail.file_size, fail.file_hash), (2, 0, [0; 20]));
    assert_eq!(text_into_buffer(Some("beta"), 3), Some(b"be\0".to_vec()));
    assert_eq!(text_into_buffer(None, 3), None);
    assert_eq!(copy_first(&[1u8, 2, 3], 5), vec![1, 2, 3]);
}

#[test]
fn interface_outputs_for_friends_matchmaking_utils() {
    assert!(set_persona_name_response(true).success);
    assert_eq!(set_persona_name_response(false).result, 2);
    assert_eq!(group_members_output(&[1, 2, 3], 2), vec![1, 2]);
    assert!(group_members_output(&[1, 2, 3], 0).is_empty());
    let g = GamePlayed { game_id: 730, game_ip: 1, game_port: 2, query_port: 3, lobby_id: 4 };
    let info = friend_game_info_output(Some(g)).unwrap();
    assert_eq!((info.game_id, info.steam_id_lobby), (730, 4));
    assert!(friend_game_info_output(None).is_none());
    assert_eq!(lobby_created(Some(99)).steamid_lobby, 99);
    assert_eq!(lobby_created(None).result, 2);
    assert_eq!(lobby_entered(5, true).chat_room_enter_response, 1);
    assert_eq!(lobby_entered(5, false).chat_room_enter_response, 2);
    assert_eq!(lobby_match_list(3).lobbies_matching, 3);
    assert_eq!(
        lobby_data_by_index_output(Some(("key", "value")), 4, 3),
        Some((b"key\0".to_vec(), b"va\0".to_vec()))
    );
    assert_eq!(lobby_data_by_index_output(Some(("k", "v")), 0, 3), None);
    let entry = LobbyChatEntry { sender: 8, entry_type: 1, data: b"hello".to_vec() };
    let (s, k, copied, n) = lobby_chat_entry_output(Some(&entry), true, 3).unwrap();
    assert_eq!((s, k, n), (8, 1, 3));
    assert_eq!(copied, Some(b"hel".to_vec()));
    let (_, _, none, whole) = lobby_chat_entry_output(Some(&entry), false, 3).unwrap();
    assert!(none.is_none());
    assert_eq!(whole, 5);
    assert_eq!(image_data_output(Some(&[1, 2, 3]), 3), Some(vec![1, 2, 3]));
    assert_eq!(image_data_output(Some(&[1, 2, 3]), 2), None);
    assert_eq!(filtered_text_output(Some("clean"), 4), (b"cle\0".to_vec(), 3));
    assert_eq!(filtered_text_output(None, 4), (Vec::new(), 0));
    assert_eq!(entered_text_output(Some("abc"), 10), Some(b"abc\0".to_vec()));
    assert_eq!(entered_text_output(Some("abc"), 0), None);
    assert_eq!(check_file_signature_result(true).check_file_signature, 0);
    assert_eq!(check_file_signature_result(false).check_file_signature, 2);
}

#[test]
fn ticket_tool_text_and_config() {
    assert_eq!(ticket_text(b"hello"), "aGVsbG8=");
    assert_eq!(ticket_text(b""), "");
    assert_eq!(ticket_length("aGVsbG8="), Some(5));
    assert_eq!(ticket_length("###"), None);
    assert_eq!(
        user_config_text(76561198000000001, "QUJD"),
        b"[user::general]\naccount_steamid=76561198000000001\nticket=QUJD\n".to_vec()
    );
    assert_eq!(generated_username_with(123456), b"Player3456".to_vec());
    assert_eq!(generated_steam_id_with(2_000_007), 76561198000000007);
}

#[test]
fn app_id_finder_menu_and_table() {
    assert!(menu_choice(" 1 \n") == MenuChoice::SearchByName);
    assert!(menu_choice("2") == MenuChoice::FromExecutable);
    assert!(menu_choice("3\r\n") == MenuChoice::ListCommonGames);
    assert!(menu_choice("\t4") == MenuChoice::Exit);
    assert!(menu_choice("5") == MenuChoice::Invalid);
    assert!(menu_choice("12") == MenuChoice::Invalid);
    assert!(menu_choice("") == MenuChoice::Invalid);
    assert!(menu_choice("\u{3000}1\u{a0}") == MenuChoice::SearchByName);
    assert_eq!(trimmed_bounds("  ab  "), (2, 4));
    assert_eq!(trimmed_bounds("   "), (3, 3));
    assert!(is_blank(" \n\t"));
    assert!(!is_blank(" x "));
    let games = common_games();
    assert_eq!(games.len(), 36);
    assert_eq!(games[0], ("Counter-Strike 2".to_string(), 730));
    assert_eq!(games[35], ("Spacewar (Test)".to_string(), 480));
}
