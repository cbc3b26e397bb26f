use d2rhub::error::AppError;
use d2rhub::json::{enforce_single_instance, inject_mod_args, read_mod_args, set_profile_name, JsonValue};

fn s(t: &str) -> JsonValue {
    JsonValue::Str(t.to_string())
}

fn obj(entries: Vec<(&str, JsonValue)>) -> JsonValue {
    JsonValue::Object(entries.into_iter().map(|(k, v)| (k.to_string(), v)).collect())
}

fn get<'a>(v: &'a JsonValue, key: &str) -> Option<&'a JsonValue> {
    match v {
        JsonValue::Object(e) => e.iter().find(|(k, _)| k == key).map(|(_, v)| v),
        _ => None,
    }
}

fn as_str(v: Option<&JsonValue>) -> Option<&str> {
    match v {
        Some(JsonValue::Str(t)) => Some(t.as_str()),
        _ => None,
    }
}

#[test]
fn mod_arguments_are_read_from_the_osic_entry() {
    let config = obj(vec![(
        "Games",
        obj(vec![("osic", obj(vec![("AdditionalLaunchArguments", s("-mod x"))]))]),
    )]);
    assert_eq!(read_mod_args(&config).as_deref(), Some("-mod x"));
    assert_eq!(read_mod_args(&obj(vec![])), None);
    assert_eq!(read_mod_args(&obj(vec![("Games", s("x"))])), None);
}

#[test]
fn injected_arguments_read_back() {
    let config = obj(vec![("Client", obj(vec![("Lang", s("zhCN"))]))]);
    let after = inject_mod_args(config, "-mod y").unwrap();
    assert_eq!(read_mod_args(&after).as_deref(), Some("-mod y"));
    assert_eq!(as_str(get(get(&after, "Client").unwrap(), "Lang")), Some("zhCN"));
    let cleared = inject_mod_args(after, "").unwrap();
    assert_eq!(read_mod_args(&cleared), None);
    assert!(get(get(&cleared, "Games").unwrap(), "osic").is_some());
}

#[test]
fn injection_refuses_other_shapes() {
    match inject_mod_args(s("x"), "-a") {
        Err(AppError::ConfigReadError(m)) => assert_eq!(m, "Battle.net.config 根节点不是 JSON 对象"),
        _ => panic!("expected a read error"),
    }
    match inject_mod_args(obj(vec![("Games", JsonValue::Null)]), "-a") {
        Err(AppError::ConfigReadError(m)) => assert_eq!(m, "Battle.net.config Games 不是 JSON 对象"),
        _ => panic!("expected a read error"),
    }
    match inject_mod_args(obj(vec![("Games", obj(vec![("osic", JsonValue::Bool(true))]))]), "-a") {
        Err(AppError::ConfigReadError(m)) => {
            assert_eq!(m, "Battle.net.config Games.osic 不是 JSON 对象")
        }
        _ => panic!("expected a read error"),
    }
}

#[test]
fn single_instance_is_enforced_once() {
    let config = obj(vec![("Client", obj(vec![("SingleInstance", s("false")), ("X", s("1"))]))]);
    let (fixed, changed) = enforce_single_instance(config);
    assert!(changed);
    let client = get(&fixed, "Client").unwrap();
    assert_eq!(as_str(get(client, "SingleInstance")), Some("true"));
    assert_eq!(as_str(get(client, "X")), Some("1"));
    let (_, again) = enforce_single_instance(fixed);
    assert!(!again);
    // A value that is not a string, or none at all, is left alone.
    let (_, changed) = enforce_single_instance(obj(vec![("Client", obj(vec![("SingleInstance", JsonValue::Bool(false))]))]));
    assert!(!changed);
    let (_, changed) = enforce_single_instance(obj(vec![("Client", obj(vec![]))]));
    assert!(!changed);
}

#[test]
fn browser_profile_gets_the_account_name() {
    let prefs = obj(vec![("profile", obj(vec![("name", s("用户 2")), ("avatar", s("a"))]))]);
    let named = set_profile_name(prefs, "Hero");
    let p = get(&named, "profile").unwrap();
    assert_eq!(as_str(get(p, "name")), Some("Hero"));
    assert!(matches!(get(p, "is_using_default_name"), Some(JsonValue::Bool(false))));
    assert_eq!(as_str(get(p, "avatar")), Some("a"));
    let fresh = set_profile_name(obj(vec![]), "Hero");
    assert_eq!(as_str(get(get(&fresh, "profile").unwrap(), "name")), Some("Hero"));
    let odd = set_profile_name(obj(vec![("profile", s("x"))]), "Hero");
    assert_eq!(as_str(get(&odd, "profile")), Some("x"));
}
