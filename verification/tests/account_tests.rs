use d2rhub::account::{
    check_registry_backup, check_settings_copy, check_system_settings, default_locale, is_token_expired, is_token_mode, new_account_meta,
    opens_login_browser, plan_window_move, reinit_wait_step, restore_value_type,
    snapshot_export_error, token_age_exceeds_limit, AccountManager, AccountMeta, ModSync,
    ReinitWait, WindowMove,
};
use d2rhub::crypto::{hex_decode, hex_encode};
use d2rhub::error::AppError;
use d2rhub::utils::{process_name_matches, profile_rename, sanitize_folder_name};

fn ids(v: &[&str]) -> Vec<String> {
    v.iter().map(|s| s.to_string()).collect()
}

#[test]
fn account_ids_accept_numbered_and_uuid_forms() {
    assert!(AccountManager::is_valid_account_id("acount1"));
    assert!(AccountManager::is_valid_account_id("acount0042"));
    assert!(AccountManager::is_valid_account_id("123e4567-e89b-12d3-a456-426614174000"));
    assert!(!AccountManager::is_valid_account_id(""));
    assert!(!AccountManager::is_valid_account_id("acount"));
    assert!(!AccountManager::is_valid_account_id("acount1a"));
    assert!(!AccountManager::is_valid_account_id(".."));
    assert!(!AccountManager::is_valid_account_id("acount1/.."));
    assert!(!AccountManager::is_valid_account_id("123e4567-e89b-12d3-a456-42661417400"));
    assert!(!AccountManager::is_valid_account_id("123e4567e89b-12d3-a456-4266141740000"));
}

#[test]
fn invalid_ids_are_reported_by_name() {
    match AccountManager::validate_account_id("../x") {
        Err(AppError::FileError(m)) => assert_eq!(m, "账号 ID 非法: ../x"),
        _ => panic!("expected a file error"),
    }
    assert!(AccountManager::validate_account_id("acount7").is_ok());
    match AccountManager::validate_all_ids(&ids(&["acount1", "bad:id", "also bad"])) {
        Err(AppError::FileError(m)) => assert_eq!(m, "账号 ID 非法: bad:id"),
        _ => panic!("expected the first invalid id"),
    }
    assert!(AccountManager::validate_all_ids(&ids(&["acount1", "acount2"])).is_ok());
}

#[test]
fn account_directory_precheck() {
    match AccountManager::account_dir_precheck("  ", "acount1") {
        Err(AppError::FileError(m)) => assert_eq!(m, "账号根目录为空"),
        _ => panic!("expected a blank root error"),
    }
    assert!(AccountManager::account_dir_precheck("accounts", "acount1").is_ok());
}

#[test]
fn next_id_follows_the_largest_number() {
    assert_eq!(AccountManager::next_id(&[]), "acount1");
    assert_eq!(AccountManager::next_id(&ids(&["acount1", "acount9", "acount3"])), "acount10");
    let uuid = "123e4567-e89b-12d3-a456-426614174000";
    assert_eq!(AccountManager::next_id(&ids(&[uuid, "acount2"])), "acount3");
    // The new id is never one of the existing ids.
    let existing = ids(&["acount1", "acount2", "acount5"]);
    let next = AccountManager::next_id(&existing);
    assert!(!existing.contains(&next));
}

#[test]
fn directory_listing_keeps_sorted_account_ids() {
    let names = ids(&["acount2", "notes", "acount10", "acount1", ".."]);
    assert_eq!(AccountManager::select_account_ids(&names), ids(&["acount1", "acount10", "acount2"]));
}

#[test]
fn new_accounts_take_region_languages() {
    let m = new_account_meta(
        "acount4",
        "Hero".to_string(),
        Some("token".to_string()),
        Some("KR".to_string()),
        Some(vec![0xab, 0x01]),
        None,
        Some("enUS".to_string()),
    );
    assert_eq!(m.id, "acount4");
    assert_eq!(m.display_name, "Hero");
    assert_eq!(m.language.as_deref(), Some("zhTW"));
    assert_eq!(m.voicelanguage.as_deref(), Some("enUS"));
    assert_eq!(m.token.as_deref(), Some("ab01"));
    assert!(m.initialized);
    assert!(m.last_reset_at.is_some());
    let b = new_account_meta("acount5", "x".to_string(), None, None, None, None, None);
    assert!(!b.initialized);
    assert_eq!(b.language.as_deref(), Some("zhCN"));
    assert!(b.token.is_none());
}

#[test]
fn default_locale_by_region() {
    assert_eq!(default_locale(&Some("NA".to_string())), "enUS");
    assert_eq!(default_locale(&Some("EU".to_string())), "enUS");
    assert_eq!(default_locale(&Some("Global".to_string())), "zhTW");
    assert_eq!(default_locale(&Some("CN".to_string())), "zhCN");
    assert_eq!(default_locale(&None), "zhCN");
    assert!(is_token_mode(&Some("token".to_string())));
    assert!(!is_token_mode(&Some("bnet".to_string())));
}

#[test]
fn meta_update_fills_missing_languages_only() {
    let mut m = AccountMeta::new("acount1");
    m.language = Some("zhCN".to_string());
    m.apply_meta_update(Some(vec![0xff]), Some("EU".to_string()), None, None);
    assert_eq!(m.region.as_deref(), Some("EU"));
    assert_eq!(m.language.as_deref(), Some("zhCN"));
    assert_eq!(m.voicelanguage.as_deref(), Some("enUS"));
    assert_eq!(m.token.as_deref(), Some("ff"));
    m.apply_meta_update(None, None, Some("enUS".to_string()), None);
    assert_eq!(m.language.as_deref(), Some("enUS"));
    assert_eq!(m.token.as_deref(), Some("ff"));
}

#[test]
fn legacy_single_mod_becomes_a_list() {
    let mut m = AccountMeta::new("acount1");
    m.mod_args = "-mod x".to_string();
    m.migrate_legacy_mods();
    assert_eq!(m.mod_list, vec!["-mod x".to_string()]);
    let mut blank = AccountMeta::new("acount2");
    blank.mod_args = "   ".to_string();
    blank.migrate_legacy_mods();
    assert!(blank.mod_list.is_empty());
}

#[test]
fn mod_args_follow_the_client_config() {
    let mut m = AccountMeta::new("acount1");
    m.mod_args = "-old".to_string();
    m.sync_mod_args_from_config(true, Some("-new".to_string()));
    assert_eq!(m.mod_args, "-old");
    m.initialized = true;
    m.sync_mod_args_from_config(true, Some("-new".to_string()));
    assert_eq!(m.mod_args, "-new");
    m.sync_mod_args_from_config(true, None);
    assert_eq!(m.mod_args, "");
}

#[test]
fn snapshot_mods_adopt_or_inject() {
    let mut m = AccountMeta::new("acount1");
    assert_eq!(m.sync_snapshot_mods(Some("-mod a".to_string())), ModSync::Adopted);
    assert_eq!(m.mod_args, "-mod a");
    assert_eq!(m.sync_snapshot_mods(Some("-other".to_string())), ModSync::Inject);
    assert_eq!(m.mod_args, "-mod a");
    let mut e = AccountMeta::new("acount2");
    assert_eq!(e.sync_snapshot_mods(None), ModSync::Nothing);
    e.mark_initialized("2024-01-01T00:00:00+00:00".to_string());
    assert!(e.initialized);
    assert_eq!(e.last_reset_at.as_deref(), Some("2024-01-01T00:00:00+00:00"));
}

#[test]
fn running_state_needs_a_game_process() {
    let mut m = AccountMeta::new("acount1");
    assert!(!m.apply_running_state(Some(42), Some("d2r.EXE")));
    assert!(m.is_running);
    assert_eq!(m.running_pid, Some(42));
    assert!(m.apply_running_state(Some(42), Some("notepad.exe")));
    assert!(!m.is_running);
    assert_eq!(m.running_pid, None);
    assert!(!m.apply_running_state(None, None));
}

#[test]
fn token_expiry() {
    assert!(!token_age_exceeds_limit(720));
    assert!(token_age_exceeds_limit(721));
    assert!(!is_token_expired(&None));
    assert!(!is_token_expired(&Some("not a time".to_string())));
    assert!(is_token_expired(&Some("2000-01-01T00:00:00+00:00".to_string())));
    assert!(!is_token_expired(&Some("2999-01-01T00:00:00+00:00".to_string())));
}

#[test]
fn window_moves() {
    let mut m = AccountMeta::new("acount1");
    assert!(matches!(plan_window_move(&m, Some(7)), WindowMove::Leave));
    m.window_x = Some(100);
    match plan_window_move(&m, Some(7)) {
        WindowMove::ByPid(pid, x, y) => assert_eq!((pid, x, y), (7, 100, 0)),
        other => panic!("unexpected {:?}", other),
    }
    match plan_window_move(&m, None) {
        WindowMove::ByTitle(t, x, y) => assert_eq!((t.as_str(), x, y), ("acount1", 100, 0)),
        other => panic!("unexpected {:?}", other),
    }
}

#[test]
fn registry_helpers() {
    assert_eq!(restore_value_type(1), 1);
    assert_eq!(restore_value_type(7), 7);
    assert_eq!(restore_value_type(6), 3);
    assert_eq!(restore_value_type(11), 3);
    assert!(check_registry_backup(2).is_ok());
    match check_registry_backup(0) {
        Err(AppError::RegistryError(m)) => {
            assert_eq!(m, "导出注册表为空——战网可能未登录或认证数据已丢失")
        }
        _ => panic!("expected a registry error"),
    }
    match snapshot_export_error(AppError::FileError("disk full".to_string())) {
        AppError::RegistryError(m) => assert_eq!(m, "导出注册表快照失败: disk full"),
        _ => panic!("expected a registry error"),
    }
}

#[test]
fn reinitialization_wait() {
    assert_eq!(reinit_wait_step(3, true, true), ReinitWait::Cancelled);
    assert_eq!(reinit_wait_step(3, false, true), ReinitWait::LoggedIn);
    assert_eq!(reinit_wait_step(10, false, false), ReinitWait::Report);
    assert_eq!(reinit_wait_step(11, false, false), ReinitWait::Keep);
    assert!(opens_login_browser("C:/chrome.exe", "chrome"));
    assert!(!opens_login_browser("", "chrome"));
}

#[test]
fn hex_round_trip() {
    let bytes = vec![0u8, 1, 0x7f, 0x80, 0xfe, 0xff];
    let text = hex_encode(&bytes);
    assert_eq!(text, "00017f80feff");
    assert_eq!(hex_decode(&text).unwrap(), bytes);
    assert_eq!(hex_decode("abc").unwrap_err(), "hex string has odd length");
    assert_eq!(hex_decode("zz").unwrap_err(), "invalid hex: invalid digit found in string");
    assert_eq!(hex_decode("+f").unwrap_err(), "invalid hex: invalid digit found in string");
    assert_eq!(hex_decode("0A").unwrap(), vec![0x0a]);
}

#[test]
fn folder_names_are_made_safe() {
    assert_eq!(sanitize_folder_name("a/b:c*d"), "a_b_c_d");
    assert_eq!(sanitize_folder_name("  Hero  "), "Hero");
    assert_eq!(sanitize_folder_name("   "), "D2RHub_Default");
    let once = sanitize_folder_name(" x?y ");
    assert_eq!(sanitize_folder_name(&once), once);
    assert_eq!(profile_rename("Old", "New"), Some(("Old".to_string(), "New".to_string())));
    assert_eq!(profile_rename("a/b", "a:b"), None);
    assert!(process_name_matches("battle.NET.exe", &["Battle.net.exe", "Agent.exe"]));
    assert!(!process_name_matches("chrome.exe", &["Battle.net.exe"]));
}

#[test]
fn customized_settings_requires_an_account_settings_file() {
    let error = check_settings_copy(false, "C:/acc/Settings.json", true, "C:/saved").unwrap_err();
    assert!(error.message().contains("账号 Settings.json 不存在"));
    assert_eq!(
        error.message(),
        "账号 Settings.json 不存在: C:/acc/Settings.json。请先在画质配置中从系统配置创建账号独立配置"
    );
}

#[test]
fn settings_copy_needs_a_saved_games_folder() {
    match check_settings_copy(true, "C:/acc/Settings.json", false, "C:/saved") {
        Err(AppError::FileError(m)) => assert_eq!(m, "存档目录无效: C:/saved。请在设置中修正存档目录"),
        _ => panic!("expected a file error"),
    }
    assert!(check_settings_copy(true, "a", true, "b").is_ok());
    assert!(check_system_settings(true, "x").is_ok());
    match check_system_settings(false, "C:/saved/Settings.json") {
        Err(AppError::FileError(m)) => assert_eq!(m, "系统 Settings.json 不存在: C:/saved/Settings.json"),
        _ => panic!("expected a file error"),
    }
}
