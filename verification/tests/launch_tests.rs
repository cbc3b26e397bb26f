use d2rhub::account::AccountMeta;
use d2rhub::error::AppError;
use d2rhub::launch::{
    account_path_error, cancel_cleanup, cancelled, check_battle_net_path, check_reg_import,
    classify_process, decode_reg_file, failure, first_new_pid, game_window_title, login_wait_step,
    mutex_outcome, plan_token_launch, position_worth_saving, route_for, split_whitespace,
    succeeded, take_snapshot, launch_step, AgentWatch, LaunchEvent, LaunchNext, LaunchPhase, CancelCleanup, LaunchQueue, LaunchRoute, LoginWait,
    MutexOutcome, ProcessKind, ProcessSnapshot, WaitPolicy,
};

fn ids(v: &[&str]) -> Vec<String> {
    v.iter().map(|s| s.to_string()).collect()
}

#[test]
fn queue_reports_every_account_in_order() {
    let mut q = LaunchQueue::new(ids(&["acount1", "acount2", "acount3"]), true);
    assert_eq!(q.current().as_deref(), Some("acount1"));
    let paused = q.record(succeeded("whatever", Some(10), true));
    assert!(!paused);
    assert_eq!(q.current().as_deref(), Some("acount2"));
    q.cancel_rest();
    assert!(q.is_done());
    let results = q.into_results();
    assert_eq!(results.len(), 3);
    assert_eq!(results[0].account_id, "acount1");
    assert!(results[0].success);
    assert_eq!(results[1].account_id, "acount2");
    assert_eq!(results[1].error.as_deref(), Some("启动已被用户取消"));
    assert_eq!(results[2].account_id, "acount3");
    assert!(!results[2].success);
}

#[test]
fn queue_pauses_when_the_mutex_stays() {
    let mut q = LaunchQueue::new(ids(&["acount1", "acount2", "acount3"]), true);
    assert!(q.record(succeeded("acount1", Some(10), false)));
    assert!(q.is_done());
    let results = q.into_results();
    assert_eq!(results.len(), 3);
    assert_eq!(results[1].error.as_deref(), Some("互斥句柄未清除，已暂停"));
    assert_eq!(results[2].error.as_deref(), Some("互斥句柄未清除，已暂停"));

    // The client-only launch never pauses, nor does the last account.
    let mut q = LaunchQueue::new(ids(&["acount1", "acount2"]), false);
    assert!(!q.record(succeeded("acount1", None, false)));
    assert!(!q.record(failure("acount2", "x".to_string())));
    assert!(q.is_done());
    assert_eq!(q.position(), 2);
    assert_eq!(q.total(), 2);
}

#[test]
fn result_constructors() {
    let c = cancelled("acount9");
    assert_eq!(c.account_id, "acount9");
    assert!(!c.success && !c.mutex_killed && c.d2r_pid.is_none());
    assert_eq!(c.error.as_deref(), Some("启动已被用户取消"));
    let e = account_path_error("acount9", AppError::FileError("账号根目录为空".to_string()));
    assert_eq!(e.error.as_deref(), Some("账号根目录为空"));
    let t = account_path_error("acount9", AppError::LoginTimeout(120));
    assert_eq!(t.error.as_deref(), Some("120"));
}

#[test]
fn cancel_cleanup_by_client_state() {
    assert_eq!(cancel_cleanup(7), CancelCleanup::CloseAndSync);
    assert_eq!(cancel_cleanup(9), CancelCleanup::CloseAndSync);
    assert_eq!(cancel_cleanup(6), CancelCleanup::KillOnly);
    assert_eq!(cancel_cleanup(0), CancelCleanup::Nothing);
    assert_eq!(login_wait_step(3, 7), LoginWait::LoggedIn);
    assert_eq!(login_wait_step(5, 4), LoginWait::Report);
    assert_eq!(login_wait_step(6, 4), LoginWait::Keep);
}

#[test]
fn reg_files_are_decoded_by_their_mark() {
    assert_eq!(decode_reg_file(b"abc").as_deref(), Some("abc"));
    assert_eq!(decode_reg_file(&[0xEF, 0xBB, 0xBF, b'h', b'i']).as_deref(), Some("hi"));
    assert_eq!(decode_reg_file(&[0xFF, 0xFE, b'h', 0, b'i', 0]).as_deref(), Some("hi"));
    assert_eq!(decode_reg_file(&[0xFF, 0xFE, b'h']), None);
    assert_eq!(decode_reg_file(&[0xFF, 0xFE, 0x00, 0xD8]), None);
    assert_eq!(decode_reg_file(&[0xFF, 0xFE, 0x3D, 0xD8, 0x00, 0xDE]).as_deref(), Some("\u{1F600}"));
    assert_eq!(decode_reg_file(&[0xFF, 0xFE, 0x00, 0xDE, 0x3D, 0xD8]), None);
    assert_eq!(decode_reg_file(&[0xC3, 0x28]), None);
}

#[test]
fn reg_import_refuses_system_keys() {
    assert_eq!(check_reg_import(b"").unwrap_err(), "注册表文件为空，导入被拒绝");
    assert_eq!(
        check_reg_import(&[0xC3, 0x28]).unwrap_err(),
        "注册表文件编码无法识别（需 UTF-8 或 UTF-16LE），导入被拒绝"
    );
    let bad = "[HKEY_LOCAL_MACHINE\\SOFTWARE\\Microsoft\\Windows\\CurrentVersion\\Run]";
    assert_eq!(check_reg_import(bad.as_bytes()).unwrap_err(), "注册表文件包含危险键路径，导入被拒绝");
    assert_eq!(
        check_reg_import(b"[hkey_classes_root\\x]").unwrap_err(),
        "注册表文件包含危险键路径，导入被拒绝"
    );
    let good = "[HKEY_CURRENT_USER\\Software\\Blizzard Entertainment]";
    assert_eq!(check_reg_import(good.as_bytes()).unwrap(), good);
}

#[test]
fn client_path_must_name_the_executable() {
    assert!(check_battle_net_path("C:\\Battle.net\\Battle.net.EXE").is_ok());
    assert_eq!(
        check_battle_net_path("C:\\evil.exe").unwrap_err(),
        "战网路径异常，预期 Battle.net.exe: C:\\evil.exe"
    );
}

#[test]
fn launch_routes() {
    let mut m = AccountMeta::new("acount1");
    assert_eq!(route_for(Some(&m), false), LaunchRoute::BattleNet);
    assert_eq!(route_for(Some(&m), true), LaunchRoute::TokenExpired);
    m.auth_mode = Some("token".to_string());
    assert_eq!(route_for(Some(&m), true), LaunchRoute::Token);
    assert_eq!(route_for(None, true), LaunchRoute::BattleNet);
}

#[test]
fn words_of_mod_arguments() {
    assert_eq!(split_whitespace("  -mod  foo\t-txt \n"), ids(&["-mod", "foo", "-txt"]));
    assert!(split_whitespace("   ").is_empty());
    assert!(split_whitespace("").is_empty());
}

#[test]
fn token_launch_plan() {
    let mut m = AccountMeta::new("acount1");
    assert_eq!(plan_token_launch(&m).unwrap_err(), "账号缺少 Token");
    m.token = Some("abc".to_string());
    assert_eq!(plan_token_launch(&m).unwrap_err(), "Token 解码失败: hex string has odd length");
    m.token = Some("0a0b".to_string());
    m.mod_args = "-mod x".to_string();
    let p = plan_token_launch(&m).unwrap();
    assert_eq!(p.region, "CN");
    assert_eq!(p.locale, "zhCN");
    assert_eq!(p.audio_locale, "zhCN");
    assert_eq!(p.web_token, vec![0x0a, 0x0b]);
    assert_eq!(p.args, ids(&["-uid", "osic", "-mod", "x"]));
    m.region = Some("NA".to_string());
    m.language = Some("zhTW".to_string());
    let p = plan_token_launch(&m).unwrap();
    assert_eq!(p.locale, "zhTW");
    assert_eq!(p.audio_locale, "enUS");
    assert_eq!(p.args[1], "OSI");
}

#[test]
fn process_snapshot_and_new_game() {
    assert_eq!(classify_process("agent.EXE"), ProcessKind::Agent);
    assert_eq!(classify_process("battle.net.exe"), ProcessKind::Other);
    let procs = vec![
        (1, "Battle.net.exe".to_string()),
        (2, "Agent.exe".to_string()),
        (3, "D2R.exe".to_string()),
        (4, "Battle.net.exe".to_string()),
        (5, "D2R.exe".to_string()),
    ];
    let snap = take_snapshot(&procs);
    assert_eq!(snap.agent_pids, vec![2]);
    assert_eq!(snap.bnet_count, 2);
    assert_eq!(snap.d2r_pids, vec![3, 5]);
    assert_eq!(first_new_pid(&snap.d2r_pids, &[3]), Some(5));
    assert_eq!(first_new_pid(&snap.d2r_pids, &[3, 5]), None);
}

#[test]
fn agent_is_locked_killed_once_then_chased() {
    let policy = WaitPolicy { agent_mode: 1, agent_threshold: 5, agent_delay_ms: 1000 };
    let mut w = AgentWatch::new();
    let snap = ProcessSnapshot { agent_pids: vec![40], bnet_count: 3, d2r_pids: vec![] };
    let st = w.step(&snap, &[], 0, &policy);
    assert_eq!(st.newly_locked, Some(40));
    assert_eq!(st.kill_locked, None);
    assert!(st.report_waiting);
    let st = w.step(&snap, &[], 500, &policy);
    assert_eq!(st.kill_locked, None);
    let st = w.step(&snap, &[], 1000, &policy);
    assert_eq!(st.kill_locked, Some(40));
    assert!(w.first_agent_killed);
    let snap2 = ProcessSnapshot { agent_pids: vec![41, 42], bnet_count: 6, d2r_pids: vec![] };
    let st = w.step(&snap2, &[], 1500, &policy);
    assert_eq!(st.kill_locked, None);
    assert_eq!(st.chase_kills, vec![41, 42]);
    assert_eq!(st.newly_seen, vec![41, 42]);
    assert!(st.send_launch);
    let st = w.step(&snap2, &[], 3000, &policy);
    assert!(st.newly_seen.is_empty());
    assert!(!st.send_launch);
    let st = w.step(&snap2, &[], 6500, &policy);
    assert!(st.send_launch);
    let done = ProcessSnapshot { agent_pids: vec![], bnet_count: 6, d2r_pids: vec![9] };
    let st = w.step(&done, &[], 7000, &policy);
    assert_eq!(st.game_pid, Some(9));
}

#[test]
fn agent_mode_two_kills_at_the_process_count() {
    let policy = WaitPolicy { agent_mode: 2, agent_threshold: 5, agent_delay_ms: 0 };
    let mut w = AgentWatch::new();
    let low = ProcessSnapshot { agent_pids: vec![8], bnet_count: 4, d2r_pids: vec![] };
    assert_eq!(w.step(&low, &[], 0, &policy).kill_locked, None);
    let high = ProcessSnapshot { agent_pids: vec![8], bnet_count: 5, d2r_pids: vec![] };
    assert_eq!(w.step(&high, &[], 10, &policy).kill_locked, Some(8));
    // Mode 3 leaves the agent alone.
    let off = WaitPolicy { agent_mode: 3, agent_threshold: 5, agent_delay_ms: 0 };
    let mut w = AgentWatch::new();
    let st = w.step(&high, &[], 0, &off);
    assert_eq!(st.newly_locked, None);
    assert_eq!(st.kill_locked, None);
    assert!(st.chase_kills.is_empty());
}

#[test]
fn window_helpers() {
    assert!(position_worth_saving((10, 20), None));
    assert!(!position_worth_saving((10, 20), Some((10, 20))));
    assert!(!position_worth_saving((-32000, -32000), None));
    let mut m = AccountMeta::new("acount1");
    assert_eq!(game_window_title(&m, "acount1"), "acount1");
    m.display_name = "Hero".to_string();
    assert_eq!(game_window_title(&m, "acount1"), "Hero");
    assert_eq!(mutex_outcome(true, false), MutexOutcome::Cleared);
    assert_eq!(mutex_outcome(false, true), MutexOutcome::SeenNotCleared);
    assert_eq!(mutex_outcome(false, false), MutexOutcome::NotSeen);
}

#[test]
fn expired_logins_end_the_launch() {
    match launch_step("acount1", LaunchPhase::Routing, LaunchEvent::Routed(LaunchRoute::TokenExpired), false) {
        LaunchNext::Finish(r) => {
            assert_eq!(r.account_id, "acount1");
            assert!(!r.success);
            assert_eq!(r.d2r_pid, None);
            assert_eq!(r.error.as_deref(), Some("Token 已过期（超过30天），请重新初始化账号"));
        }
        other => panic!("unexpected {:?}", other),
    }
    assert!(matches!(
        launch_step("acount1", LaunchPhase::Routing, LaunchEvent::Routed(LaunchRoute::Token), false),
        LaunchNext::LaunchWithToken
    ));
    assert!(matches!(
        launch_step("acount1", LaunchPhase::Routing, LaunchEvent::Routed(LaunchRoute::BattleNet), false),
        LaunchNext::Enter(LaunchPhase::WaitingForGame)
    ));
}

#[test]
fn launch_waits_run_out() {
    assert!(matches!(launch_step("a", LaunchPhase::WaitingForGame, LaunchEvent::Tick(59_999), false), LaunchNext::Stay));
    match launch_step("a", LaunchPhase::WaitingForGame, LaunchEvent::Tick(60_000), false) {
        LaunchNext::Finish(r) => assert_eq!(r.error.as_deref(), Some("等待游戏进程启动超时")),
        other => panic!("unexpected {:?}", other),
    }
    assert!(matches!(
        launch_step("a", LaunchPhase::WaitingForGame, LaunchEvent::GameStarted(42), false),
        LaunchNext::Enter(LaunchPhase::Connecting(42))
    ));
    match launch_step("a", LaunchPhase::Connecting(42), LaunchEvent::Tick(60_000), false) {
        LaunchNext::Finish(r) => assert_eq!(r.error.as_deref(), Some("连接服务器超时")),
        other => panic!("unexpected {:?}", other),
    }
    assert!(matches!(
        launch_step("a", LaunchPhase::Connecting(42), LaunchEvent::Connected, false),
        LaunchNext::Enter(LaunchPhase::ConfirmingMutex(42))
    ));
    assert!(matches!(
        launch_step("a", LaunchPhase::Connecting(42), LaunchEvent::Connected, true),
        LaunchNext::Enter(LaunchPhase::Finishing(42))
    ));
    assert!(matches!(launch_step("a", LaunchPhase::ConfirmingMutex(42), LaunchEvent::Tick(2_999), false), LaunchNext::Stay));
    assert!(matches!(
        launch_step("a", LaunchPhase::ConfirmingMutex(42), LaunchEvent::Tick(3_000), false),
        LaunchNext::Enter(LaunchPhase::Finishing(42))
    ));
    assert!(matches!(launch_step("a", LaunchPhase::Connecting(42), LaunchEvent::Cancelled, false), LaunchNext::CancelAndSave));
    match launch_step("a", LaunchPhase::Finishing(42), LaunchEvent::Saved, true) {
        LaunchNext::Finish(r) => {
            assert!(r.success);
            assert_eq!(r.d2r_pid, Some(42));
            assert!(r.mutex_killed);
        }
        other => panic!("unexpected {:?}", other),
    }
}
