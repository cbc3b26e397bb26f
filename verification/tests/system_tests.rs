use d2rhub::browser::{
    browser_args, browser_kind, ensure_allowed_bnet_login_url, ensure_browser_path_allowed,
    paths_match_config, plan_browser_profile, ProfileHome,
};
use d2rhub::config::GlobalConfig;
use d2rhub::json::JsonValue;
use d2rhub::system::{
    any_named, browser_running, chrome_windows, count_named, find_bnet_window, find_game_hwnd,
    find_game_hwnd_by_title, game_process_alive, game_windows, is_browser_process_name,
    lobby_connected, login_browser_windows, match_running_accounts, new_window, pids_named,
    pids_to_kill, release_from_response, release_info, window_titled, window_to_raise, window_to_rename, LaunchProgress,
    TcpRow, WindowInfo,
};

fn procs() -> Vec<(u32, String)> {
    vec![
        (10, "Battle.net.exe".to_string()),
        (11, "Battle.net.exe".to_string()),
        (12, "agent.exe".to_string()),
        (20, "D2R.exe".to_string()),
        (30, "chrome.exe".to_string()),
    ]
}

fn win(hwnd: isize, pid: u32, visible: bool, title: &str, class: &str) -> WindowInfo {
    WindowInfo { hwnd, pid, visible, title: title.to_string(), class_name: class.to_string() }
}

#[test]
fn progress_events() {
    let p = LaunchProgress::new("acount1", "queue", "running", "[1/2]");
    assert_eq!((p.account_id.as_str(), p.step.as_str()), ("acount1", "queue"));
    assert_eq!((p.status.as_str(), p.message.as_str()), ("running", "[1/2]"));
}

#[test]
fn process_list_queries() {
    let p = procs();
    assert_eq!(pids_named(&p, "Battle.net.exe"), vec![10, 11]);
    assert_eq!(count_named(&p, "Battle.net.exe"), 2);
    assert!(any_named(&p, &["Battle.net.exe", "Agent.exe", "Battle.net"]));
    assert!(!any_named(&p, &["Agent.exe"]));
    assert_eq!(pids_to_kill(&p, &["Battle.net.exe", "Agent.exe"], true), vec![10, 11, 12]);
    assert_eq!(pids_to_kill(&p, &["Battle.net.exe", "Agent.exe"], false), vec![10, 11]);
    assert!(game_process_alive(&p, 20));
    assert!(!game_process_alive(&p, 30));
    assert!(browser_running(&p, "chrome"));
    assert!(!browser_running(&p, "edge"));
    assert!(is_browser_process_name("MSEdge.exe"));
    assert!(!is_browser_process_name("firefox.exe"));
}

#[test]
fn lobby_connection_needs_port_1119_off_loopback() {
    let row = |state, addr, port, pid| TcpRow { state, remote_addr: addr, remote_port: port, owning_pid: pid };
    assert!(lobby_connected(&[row(5, 0x0a00_0001, 1119, 20)], 20));
    assert!(!lobby_connected(&[row(5, 0x0100_007f, 1119, 20)], 20));
    assert!(!lobby_connected(&[row(2, 0x0a00_0001, 1119, 20)], 20));
    assert!(!lobby_connected(&[row(5, 0x0a00_0001, 443, 20)], 20));
    assert!(!lobby_connected(&[row(5, 0x0a00_0001, 1119, 21)], 20));
}

#[test]
fn window_searches() {
    let wins = vec![
        win(1, 20, true, "Diablo II: Resurrected", "OsWindow"),
        win(2, 21, false, "Hero", "OsWindow"),
        win(3, 21, true, "Hero", "OsWindow"),
        win(4, 30, true, "Battle.net - Login", "Chrome_WidgetWin_1"),
    ];
    assert_eq!(find_game_hwnd_by_title(&wins, "Hero"), Some(3));
    assert_eq!(find_game_hwnd_by_title(&wins, "Nobody"), Some(1));
    assert_eq!(window_to_raise(&wins, "hero"), Some(3));
    assert_eq!(window_to_raise(&wins, ""), None);
    assert_eq!(find_game_hwnd(&wins, 21), Some(3));
    assert_eq!(find_game_hwnd(&wins, 0), None);
    assert_eq!(window_titled(&wins, "Hero"), Some(3));
    assert_eq!(window_titled(&wins, "Nobody"), None);
    assert_eq!(window_to_rename(&wins, 20), Some(1));
    assert_eq!(window_to_rename(&wins, 21), None);
    assert_eq!(find_bnet_window(&wins, &[30]), Some(4));
    assert_eq!(chrome_windows(&wins), vec![4]);
    assert_eq!(new_window(&[4, 5], &[4]), Some(5));
    assert_eq!(login_browser_windows(&wins, &procs()), vec![4]);
    let games = game_windows(&wins, &[20, 21]);
    assert_eq!(games, vec![("Diablo II: Resurrected".to_string(), 20), ("Hero".to_string(), 21)]);
    let accounts = vec![
        ("acount1".to_string(), "hero".to_string()),
        ("acount2".to_string(), String::new()),
    ];
    assert_eq!(match_running_accounts(&accounts, &games), vec![("acount1".to_string(), 21)]);
}

fn obj(entries: Vec<(&str, JsonValue)>) -> JsonValue {
    JsonValue::Object(entries.into_iter().map(|(k, v)| (k.to_string(), v)).collect())
}

fn asset(name: &str, url: &str) -> JsonValue {
    obj(vec![
        ("name", JsonValue::Str(name.to_string())),
        ("browser_download_url", JsonValue::Str(url.to_string())),
    ])
}

#[test]
fn release_installer_choice() {
    let release = obj(vec![
        ("tag_name", JsonValue::Str("vv1.2.3".to_string())),
        (
            "assets",
            JsonValue::Array(vec![
                asset("D2RHub_1.2.3_x64.msi", "u-msi"),
                asset("D2RHub-Lite_setup.exe", "u-lite"),
                asset("D2RHub_1.2.3_x64-setup.exe", "u-nsis"),
            ]),
        ),
    ]);
    let info = release_info(&release, false).unwrap();
    assert_eq!(info.version, "1.2.3");
    assert_eq!(info.download_url, "u-nsis");
    let lite = release_info(&release, true).unwrap();
    assert_eq!(lite.download_url, "u-lite");
    let msi_only = obj(vec![
        ("tag_name", JsonValue::Str("2.0".to_string())),
        ("assets", JsonValue::Array(vec![asset("a.msi", "u-msi")])),
    ]);
    assert_eq!(release_info(&msi_only, false).unwrap().download_url, "u-msi");
    assert_eq!(release_info(&obj(vec![]), false).unwrap_err(), "未找到 tag_name 字段");
    let none = obj(vec![("tag_name", JsonValue::Str("1".to_string()))]);
    assert_eq!(
        release_info(&none, false).unwrap_err(),
        "未在 Release 中找到安装包资产，预期 NSIS .exe 或 .msi 安装器"
    );
}

#[test]
fn browser_checks() {
    assert!(paths_match_config("C:/Chrome.exe", "c:/chrome.EXE", None));
    assert!(!paths_match_config("C:/a.exe", "C:/b.exe", None));
    assert!(paths_match_config("C:/a.exe", "C:/b.exe", Some(true)));
    assert!(!paths_match_config("  ", "  ", Some(true)));
    let mut c = GlobalConfig::default();
    c.browser_path = "C:/chrome.exe".to_string();
    assert!(ensure_browser_path_allowed(&c, "C:/chrome.exe", None).is_ok());
    assert!(ensure_browser_path_allowed(&c, "C:/other.exe", Some(false)).is_err());
    assert!(ensure_allowed_bnet_login_url(
        "https://us.battle.net/login/en/?externalChallenge=login&app=OSI"
    )
    .is_ok());
    assert!(ensure_allowed_bnet_login_url("https://evil.example/login/?externalchallenge=login&app=osi").is_err());
    assert!(ensure_allowed_bnet_login_url("https://kr.battle.net/login/").is_err());
    assert_eq!(browser_kind("", "C:/Edge/msedge.exe"), "edge");
    assert_eq!(browser_kind("", "C:/x/browser.exe"), "chrome");
    assert_eq!(browser_kind("edge", "chrome.exe"), "edge");
}

#[test]
fn browser_profile_plans() {
    let p = plan_browser_profile("acount1", "edge", Some("He/ro".to_string()), true).unwrap();
    assert_eq!(p.home, ProfileHome::Edge);
    assert_eq!(p.profile_name, "He_ro");
    assert_eq!(p.display_name, "He/ro");
    assert!(p.rename_profile);
    let q = plan_browser_profile("acount1", "chrome", None, false).unwrap();
    assert_eq!(q.home, ProfileHome::AccountDir);
    assert_eq!(q.profile_name, "Default");
    assert!(!q.rename_profile);
    assert!(plan_browser_profile("..", "chrome", None, true).is_err());
    let args = browser_args("C:/data", "Hero", Some("https://x"));
    assert_eq!(
        args,
        vec![
            "--user-data-dir=C:/data".to_string(),
            "--profile-directory=Hero".to_string(),
            "--no-first-run".to_string(),
            "--no-default-browser-check".to_string(),
            "https://x".to_string(),
        ]
    );
    assert_eq!(browser_args("d", "p", None).len(), 4);
}

#[test]
fn release_replies_are_parsed() {
    let reply = r#"{"tag_name":"v1.2.3","assets":[{"name":"D2RHub_lite_setup.exe","browser_download_url":"https://x/lite.exe"}]}"#;
    let info = release_from_response(reply, true).unwrap();
    assert_eq!(info.version, "1.2.3");
    assert_eq!(info.download_url, "https://x/lite.exe");
    let err = release_from_response("oops", true).unwrap_err();
    assert!(err.starts_with("解析 JSON 失败: "));
    assert!(err.ends_with(", 响应内容: oops"));
}
