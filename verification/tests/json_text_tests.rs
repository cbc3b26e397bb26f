use d2rhub::error::AppError;
use d2rhub::json_text::{enforce_single_instance_text, inject_mod_args_text, read_mod_args_text, set_profile_name_text};

#[test]
fn mod_arguments_round_trip_through_the_text() {
    let text = r#"{"Games":{"osic":{"Other":1}},"Client":{}}"#;
    let written = inject_mod_args_text(text, "-mod x").unwrap();
    assert_eq!(read_mod_args_text(&written).as_deref(), Some("-mod x"));
    let cleared = inject_mod_args_text(&written, "").unwrap();
    assert_eq!(read_mod_args_text(&cleared), None);
    assert_eq!(read_mod_args_text("not json"), None);
    match inject_mod_args_text("[1]", "x") {
        Err(AppError::ConfigReadError(m)) => assert_eq!(m, "Battle.net.config 根节点不是 JSON 对象"),
        _ => panic!("expected a read error"),
    }
    assert!(matches!(inject_mod_args_text("{", "x"), Err(AppError::ConfigReadError(_))));
}

#[test]
fn single_instance_is_enforced_on_the_text() {
    let off = r#"{"Client":{"SingleInstance":"false","Other":"y"}}"#;
    let fixed = enforce_single_instance_text(off).unwrap().unwrap();
    let v: serde_json::Value = serde_json::from_str(&fixed).unwrap();
    assert_eq!(v["Client"]["SingleInstance"], "true");
    assert_eq!(v["Client"]["Other"], "y");
    assert_eq!(enforce_single_instance_text(&fixed).unwrap(), None);
    assert!(enforce_single_instance_text("nope").is_err());
}

#[test]
fn profile_name_is_written_into_the_preferences() {
    let text = set_profile_name_text(Some(r#"{"profile":{"x":1},"k":true}"#), "Alice");
    let v: serde_json::Value = serde_json::from_str(&text).unwrap();
    assert_eq!(v["profile"]["name"], "Alice");
    assert_eq!(v["profile"]["is_using_default_name"], false);
    assert_eq!(v["profile"]["x"], 1);
    assert_eq!(v["k"], true);
    let fresh = set_profile_name_text(None, "Bob");
    let v: serde_json::Value = serde_json::from_str(&fresh).unwrap();
    assert_eq!(v["profile"]["name"], "Bob");
}
