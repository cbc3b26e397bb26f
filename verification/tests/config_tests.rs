use d2rhub::account::AccountMeta;
use d2rhub::config::{
    accept_ocr_target, capitalize_key_part, choose_saved_games_folder, default_agent_delay_secs_bits,
    default_bongo_cat_scale_bits, default_bongo_cat_unlocked_skins, normalize_bindings,
    normalize_shortcut, shortcut_entries, shortcut_lookup, strip_win_modifiers, validate_config_paths,
    GlobalConfig, PathChecks,
};
use d2rhub::error::AppError;

fn all_paths_ok() -> PathChecks {
    PathChecks {
        battle_net_is_file: true,
        battle_net_named: true,
        game_is_dir: true,
        browser_is_file: true,
        browser_named_chrome: true,
        browser_named_edge: true,
    }
}

#[test]
fn enabled_ocr_requires_a_selected_account() {
    let mut config = GlobalConfig::default();
    config.ocr_enabled = true;

    assert!(config.ocr_target_account_id().is_err());
}

#[test]
fn disabled_ocr_does_not_require_a_target_account() {
    let config = GlobalConfig::default();

    assert!(config.ocr_target_account_id().unwrap().is_none());
}

#[test]
fn enabled_ocr_requires_an_initialized_account() {
    let account = AccountMeta::new("acount1");
    let mut config = GlobalConfig::default();
    config.ocr_enabled = true;
    config.ocr_target_account = account.id.clone();

    let id = config.ocr_target_account_id().unwrap().unwrap();
    assert!(accept_ocr_target(&id, Ok(account)).is_err());
}

#[test]
fn enabled_ocr_accepts_an_initialized_account() {
    let mut account = AccountMeta::new("acount1");
    account.initialized = true;
    let mut config = GlobalConfig::default();
    config.ocr_enabled = true;
    config.ocr_target_account = account.id.clone();

    let id = config.ocr_target_account_id().unwrap().unwrap();
    let resolved = accept_ocr_target(&id, Ok(account.clone())).unwrap();
    assert_eq!(resolved.id, account.id);
}

#[test]
fn invalid_legacy_ocr_configuration_is_disabled() {
    let mut config = GlobalConfig::default();
    config.ocr_enabled = true;

    let target_ok = config.ocr_target_account_id().is_ok();
    assert!(config.normalize_ocr_configuration(target_ok));
    assert!(!config.ocr_enabled);
}

#[test]
fn ocr_target_is_trimmed_and_missing_accounts_are_named() {
    let mut config = GlobalConfig::default();
    config.ocr_enabled = true;
    config.ocr_target_account = "  acount3 ".to_string();
    assert_eq!(config.ocr_target_account_id().unwrap(), Some("acount3".to_string()));
    match accept_ocr_target("acount3", Err(AppError::AccountNotFound("acount3".to_string()))) {
        Err(AppError::ConfigWriteError(m)) => assert_eq!(m, "OCR 目标账号不存在: acount3"),
        _ => panic!("expected a configuration error"),
    }
    let fresh = AccountMeta::new("acount3");
    match accept_ocr_target("acount3", Ok(fresh)) {
        Err(AppError::ConfigWriteError(m)) => assert_eq!(m, "OCR 目标账号尚未初始化: acount3"),
        _ => panic!("expected a configuration error"),
    }
    config.ocr_target_account = "   ".to_string();
    match config.ocr_target_account_id() {
        Err(AppError::ConfigWriteError(m)) => assert_eq!(m, "启用 OCR 前请先选择目标账号"),
        _ => panic!("expected a configuration error"),
    }
}

#[test]
fn normalization_settles_and_keeps_valid_targets() {
    let mut config = GlobalConfig::default();
    config.ocr_enabled = true;
    assert!(!config.normalize_ocr_configuration(true));
    assert!(config.ocr_enabled);
    assert!(config.normalize_ocr_configuration(false));
    assert!(!config.normalize_ocr_configuration(false));
}

#[test]
fn default_configuration_values() {
    let c = GlobalConfig::default();
    assert_eq!(c.version, 1);
    assert_eq!(c.theme, "light");
    assert_eq!(c.theme_overlay, "light");
    assert_eq!(c.font_scale, "default");
    assert_eq!(c.app_language, "zh-CN");
    assert_eq!(c.overlay_opacity, 95);
    assert_eq!(c.main_opacity, 95);
    assert_eq!(c.ocr_poll_interval_ms, 500);
    assert_eq!(c.agent_mode, 1);
    assert_eq!(c.agent_threshold, 5);
    assert_eq!(c.ocr_timing_mode, "full_clear");
    assert_eq!(c.ocr_phase_config_json, "{}");
    assert_eq!(c.shortcut_bindings_json, r#"{"1":"Ctrl+1","2":"Ctrl+2","3":"Ctrl+3"}"#);
    assert_eq!(c.bongo_cat_skin, "original");
    assert_eq!(c.bongo_cat_unlocked_skins, vec!["original".to_string()]);
    assert!(c.enable_overlay && c.auto_close_browser && c.enable_auto_update && c.first_launch);
    assert!(c.enable_bongo_cat && c.bongo_cat_chatterbox);
    assert!(!c.ocr_enabled && !c.first_run_complete);
    assert_eq!(f32::from_bits(c.bongo_cat_scale_bits), 1.0f32);
    assert_eq!(f64::from_bits(c.agent_delay_secs_bits), 1.0f64);
    assert_eq!(f32::from_bits(default_bongo_cat_scale_bits()), 1.0f32);
    assert_eq!(f64::from_bits(default_agent_delay_secs_bits()), 1.0f64);
    assert_eq!(default_bongo_cat_unlocked_skins().len(), 1);
}

#[test]
fn theme_goes_to_the_window_that_asked() {
    let mut c = GlobalConfig::default();
    c.set_theme("overlay", "onyx".to_string());
    assert_eq!(c.theme_overlay, "onyx");
    assert_eq!(c.theme, "light");
    c.set_theme("main", "onyx".to_string());
    assert_eq!(c.theme, "onyx");
}

#[test]
fn load_migrations_fill_shortcuts_and_settle() {
    let mut c = GlobalConfig::default();
    c.shortcut_bindings_json = String::new();
    c.accounts_dir = "old".to_string();
    assert!(c.apply_load_migrations("config/accounts"));
    assert_eq!(c.accounts_dir, "config/accounts");
    assert_eq!(c.shortcut_bindings_json, r#"{"1":"Ctrl+1","2":"Ctrl+2","3":"Ctrl+3"}"#);
    assert!(!c.apply_load_migrations("config/accounts"));
}

#[test]
fn path_checks_in_order() {
    let mut c = GlobalConfig::default();
    c.battle_net_path = "C:/bnet/Battle.net.exe".to_string();
    c.game_path = "C:/game".to_string();
    assert!(validate_config_paths(&c, &all_paths_ok()).is_ok());

    let mut k = all_paths_ok();
    k.battle_net_named = false;
    match validate_config_paths(&c, &k) {
        Err(AppError::InvalidBnetPath(p)) => assert_eq!(p, "C:/bnet/Battle.net.exe"),
        _ => panic!("expected an invalid client path"),
    }
    let mut k = all_paths_ok();
    k.game_is_dir = false;
    match validate_config_paths(&c, &k) {
        Err(AppError::InvalidGamePath(p)) => assert_eq!(p, "C:/game"),
        _ => panic!("expected an invalid game path"),
    }
    c.browser_path = "C:/b/chrome.exe".to_string();
    c.browser_type = "edge".to_string();
    let mut k = all_paths_ok();
    k.browser_named_edge = false;
    match validate_config_paths(&c, &k) {
        Err(AppError::ConfigWriteError(m)) => {
            assert_eq!(m, "浏览器类型为 edge，但路径不是 msedge.exe: C:/b/chrome.exe")
        }
        _ => panic!("expected a browser error"),
    }
    let mut k = all_paths_ok();
    k.browser_is_file = false;
    match validate_config_paths(&c, &k) {
        Err(AppError::ConfigWriteError(m)) => assert_eq!(m, "浏览器路径无效: C:/b/chrome.exe"),
        _ => panic!("expected a browser error"),
    }
    // A blank browser path is not checked at all.
    c.browser_path = "  ".to_string();
    assert!(validate_config_paths(&c, &k).is_ok());
}

#[test]
fn key_names_are_spelled_the_standard_way() {
    assert_eq!(capitalize_key_part("ctrl"), "Ctrl");
    assert_eq!(capitalize_key_part("pagedown"), "PageDown");
    assert_eq!(capitalize_key_part("a"), "A");
    assert_eq!(capitalize_key_part("1"), "1");
    assert_eq!(capitalize_key_part("f1"), "F1");
    assert_eq!(capitalize_key_part("f24"), "F24");
    assert_eq!(capitalize_key_part("f25"), "f25");
    assert_eq!(capitalize_key_part("f0"), "f0");
    assert_eq!(capitalize_key_part("pageup"), "PageUp");
    assert_eq!(capitalize_key_part("é"), "é");
}

#[test]
fn windows_modifiers_are_stripped_from_shortcuts() {
    assert_eq!(normalize_shortcut("Ctrl+Win+A"), Some("Ctrl+A".to_string()));
    assert_eq!(normalize_shortcut("ctrl+1"), Some("Ctrl+1".to_string()));
    assert_eq!(normalize_shortcut("META+Shift+x"), Some("Shift+X".to_string()));
    assert_eq!(normalize_shortcut("Win"), None);
    assert_eq!(normalize_shortcut("Win+Command"), None);
    assert_eq!(normalize_shortcut("Ctrl++"), Some("Ctrl++".to_string()));
}

#[test]
fn bindings_normalization_reports_changes() {
    let (out, changed) = normalize_bindings(vec![
        ("1".to_string(), "Ctrl+1".to_string()),
        ("2".to_string(), "Ctrl+2".to_string()),
    ]);
    assert!(!changed);
    assert_eq!(out.len(), 2);
    let (out, changed) = normalize_bindings(vec![
        ("1".to_string(), "Win+Alt+q".to_string()),
        ("2".to_string(), "Win".to_string()),
        ("3".to_string(), "Ctrl+3".to_string()),
    ]);
    assert!(changed);
    assert_eq!(
        out,
        vec![("1".to_string(), "Alt+Q".to_string()), ("3".to_string(), "Ctrl+3".to_string())]
    );
}

#[test]
fn shortcut_lookup_skips_bad_positions() {
    let entries = shortcut_entries(&[
        ("1".to_string(), "Ctrl+1".to_string()),
        ("0".to_string(), "Ctrl+0".to_string()),
        ("x".to_string(), "Ctrl+X".to_string()),
        ("+2".to_string(), "Alt+2".to_string()),
    ]);
    assert_eq!(entries, vec![("ctrl+1".to_string(), 1), ("alt+2".to_string(), 2)]);
}

#[test]
fn saved_games_folder_prefers_the_chinese_release() {
    let names = vec![
        "Other Game".to_string(),
        "Diablo II Resurrected".to_string(),
        "Diablo II Resurrected (CN)".to_string(),
    ];
    assert_eq!(choose_saved_games_folder(&names), Some("Diablo II Resurrected (CN)".to_string()));
    let names = vec!["Other".to_string(), "Diablo II Resurrected".to_string()];
    assert_eq!(choose_saved_games_folder(&names), Some("Diablo II Resurrected".to_string()));
    let names = vec!["(CN) only".to_string()];
    assert_eq!(choose_saved_games_folder(&names), None);
}

#[test]
fn invalid_saved_games_path_does_not_block_core_configuration() {
    let mut config = GlobalConfig::default();
    config.battle_net_path = "C:/root/Battle.net.exe".to_string();
    config.game_path = "C:/root/game".to_string();
    config.saved_games_path = "C:/root/missing".to_string();
    let checks = PathChecks {
        battle_net_is_file: true,
        battle_net_named: true,
        game_is_dir: true,
        browser_is_file: false,
        browser_named_chrome: false,
        browser_named_edge: false,
    };
    assert!(validate_config_paths(&config, &checks).is_ok());
}

#[test]
fn stored_bindings_are_normalized_once() {
    let mut json = r#"{"1":"win+ctrl+f1","2":"Alt+2","3":"win"}"#.to_string();
    assert!(strip_win_modifiers(&mut json));
    let mut lookup = shortcut_lookup(&json);
    lookup.sort();
    assert_eq!(lookup, vec![("alt+2".to_string(), 2), ("ctrl+f1".to_string(), 1)]);
    let before = json.clone();
    assert!(!strip_win_modifiers(&mut json));
    assert_eq!(json, before);
    let mut bad = "not json".to_string();
    assert!(!strip_win_modifiers(&mut bad));
    assert_eq!(bad, "not json");
    assert!(shortcut_lookup("[1]").is_empty());
}
