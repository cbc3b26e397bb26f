//! JSON documents and the edits made to the Battle.net client configuration
//! and the browser profile preferences.
//!
//! A document is modelled as a `JsonValue`; an object is a list of entries,
//! read the way a JSON object is read: the value of a key is the value of its
//! first entry.  Edits are stated by what each key reads afterwards.
use vstd::prelude::*;
use crate::error::{is_config_read_error, AppError};
use crate::text::{chars_eq, chars_of, copy_string, str_eq};

verus! {

/// A JSON value.  Numbers keep their text.
#[derive(Debug)]
pub enum JsonValue {
    Null,
    Bool(bool),
    Number(String),
    Str(String),
    Array(Vec<JsonValue>),
    Object(Vec<(String, JsonValue)>),
}

/// The value read for `key` in a list of object entries: that of the first
/// entry with this key.
pub open spec fn lookup(entries: Seq<(String, JsonValue)>, key: Seq<char>) -> Option<JsonValue>
    decreases entries.len(),
{
    if entries.len() == 0 {
        None
    } else if entries[0].0@ == key {
        Some(entries[0].1)
    } else {
        lookup(entries.drop_first(), key)
    }
}

/// The value of `key` in an object; `None` for a value that is not an object.
pub open spec fn field(v: JsonValue, key: Seq<char>) -> Option<JsonValue> {
    match v {
        JsonValue::Object(e) => lookup(e@, key),
        _ => None,
    }
}

/// The entries of an object found under a key, or no entries when the key is
/// absent; `None` when the key holds something other than an object.
pub open spec fn entries_or_empty(v: Option<JsonValue>) -> Option<Seq<(String, JsonValue)>> {
    match v {
        None => Some(Seq::empty()),
        Some(JsonValue::Object(e)) => Some(e@),
        Some(_) => None,
    }
}

/// The value is a string equal to `s`.
pub open spec fn is_str(v: Option<JsonValue>, s: Seq<char>) -> bool {
    v matches Some(JsonValue::Str(t)) && t@ == s
}

/// `b` reads like `a` for every key other than `key`.
pub open spec fn same_except(a: Seq<(String, JsonValue)>, b: Seq<(String, JsonValue)>, key: Seq<char>) -> bool {
    forall|k: Seq<char>| k != key ==> #[trigger] lookup(b, k) == lookup(a, k)
}

proof fn lemma_lookup_skip(e: Seq<(String, JsonValue)>, key: Seq<char>, i: int)
    requires
        0 <= i <= e.len(),
        forall|j: int| 0 <= j < i ==> (#[trigger] e[j]).0@ != key,
    ensures
        lookup(e, key) == lookup(e.skip(i), key),
    decreases i,
{
    if i > 0 {
        assert(e[0].0@ != key);
        let t = e.drop_first();
        assert forall|j: int| 0 <= j < i - 1 implies (#[trigger] t[j]).0@ != key by {
            assert(t[j] == e[j + 1]);
        }
        lemma_lookup_skip(t, key, i - 1);
        assert(t.skip(i - 1) == e.skip(i));
    } else {
        assert(e.skip(0) == e);
    }
}

proof fn lemma_lookup_push(e: Seq<(String, JsonValue)>, entry: (String, JsonValue), key: Seq<char>)
    ensures
        lookup(e.push(entry), key) == if lookup(e, key) is Some {
            lookup(e, key)
        } else if entry.0@ == key {
            Some(entry.1)
        } else {
            None
        },
    decreases e.len(),
{
    if e.len() > 0 {
        assert(e.push(entry)[0] == e[0]);
        assert(e.push(entry).drop_first() == e.drop_first().push(entry));
        lemma_lookup_push(e.drop_first(), entry, key);
    } else {
        assert(e.push(entry)[0] == entry);
        assert(e.push(entry).drop_first() == Seq::<(String, JsonValue)>::empty());
        assert(lookup(Seq::<(String, JsonValue)>::empty(), key) is None);
    }
}

/// The index of the first entry with `key`, if any: the entry that a read
/// of `key` finds.
pub fn find_key(entries: &Vec<(String, JsonValue)>, key: &[char]) -> (r: Option<usize>)
    ensures
        r matches Some(i) ==> i < entries@.len() && entries@[i as int].0@ == key@ && lookup(
            entries@,
            key@,
        ) == Some(entries@[i as int].1),
        r is None ==> lookup(entries@, key@) is None && forall|j: int|
            0 <= j < entries@.len() ==> (#[trigger] entries@[j]).0@ != key@,
{
    let mut i: usize = 0;
    while i < entries.len()
        invariant
            i <= entries.len(),
            forall|j: int| 0 <= j < i ==> (#[trigger] entries@[j]).0@ != key@,
        decreases entries.len() - i,
    {
        let k = chars_of(entries[i].0.as_str());
        if chars_eq(k.as_slice(), key) {
            proof {
                lemma_lookup_skip(entries@, key@, i as int);
            }
            return Some(i);
        }
        i += 1;
    }
    proof {
        lemma_lookup_skip(entries@, key@, i as int);
    }
    None
}

/// Removes every entry with `key` and returns what the key read before.
fn remove_key(entries: &mut Vec<(String, JsonValue)>, key: &str) -> (r: Option<JsonValue>)
    ensures
        r == lookup(old(entries)@, key@),
        lookup(final(entries)@, key@) is None,
        same_except(old(entries)@, final(entries)@, key@),
{
    let k = chars_of(key);
    let ghost orig = entries@;
    let mut src: Vec<(String, JsonValue)> = Vec::new();
    std::mem::swap(entries, &mut src);
    let mut taken: Option<JsonValue> = None;
    let ghost mut p: int = 0;
    assert(orig.skip(0) == orig);
    assert(orig.take(0) == Seq::<(String, JsonValue)>::empty());
    while src.len() > 0
        invariant
            k@ == key@,
            0 <= p <= orig.len(),
            src@ == orig.skip(p),
            taken == lookup(orig.take(p), key@),
            lookup(entries@, key@) is None,
            forall|kk: Seq<char>| kk != key@ ==> #[trigger] lookup(entries@, kk) == lookup(
                orig.take(p),
                kk,
            ),
        decreases src.len(),
    {
        let e = src.remove(0);
        proof {
            assert(e == orig[p]);
            assert(orig.take(p + 1) == orig.take(p).push(e));
            assert(orig.skip(p + 1) == orig.skip(p).drop_first());
            lemma_lookup_push(orig.take(p), e, key@);
            assert forall|kk: Seq<char>| true implies lookup(orig.take(p + 1), kk) == (if lookup(
                orig.take(p),
                kk,
            ) is Some {
                lookup(orig.take(p), kk)
            } else if e.0@ == kk {
                Some(e.1)
            } else {
                None
            }) by {
                lemma_lookup_push(orig.take(p), e, kk);
            }
        }
        let ek = chars_of(e.0.as_str());
        if chars_eq(ek.as_slice(), k.as_slice()) {
            if taken.is_none() {
                taken = Some(e.1);
            }
        } else {
            let ghost before = entries@;
            entries.push(e);
            proof {
                lemma_lookup_push(before, e, key@);
                assert forall|kk: Seq<char>| kk != key@ implies #[trigger] lookup(entries@, kk)
                    == lookup(orig.take(p + 1), kk) by {
                    lemma_lookup_push(before, e, kk);
                }
            }
        }
        proof {
            p = p + 1;
        }
    }
    assert(orig.take(p) == orig);
    taken
}

/// Sets `key` to `val`, replacing whatever it held.
fn set_key(entries: &mut Vec<(String, JsonValue)>, key: &str, val: JsonValue)
    ensures
        lookup(final(entries)@, key@) == Some(val),
        same_except(old(entries)@, final(entries)@, key@),
{
    remove_key(entries, key);
    let ghost mid = entries@;
    let entry = (copy_string(key), val);
    entries.push(entry);
    proof {
        lemma_lookup_push(mid, entry, key@);
        assert forall|kk: Seq<char>| kk != key@ implies #[trigger] lookup(entries@, kk) == lookup(
            mid,
            kk,
        ) by {
            lemma_lookup_push(mid, entry, kk);
        }
    }
}

/// The value of `key` inside a value that may be missing.
pub open spec fn at(v: Option<JsonValue>, key: Seq<char>) -> Option<JsonValue> {
    match v {
        Some(x) => field(x, key),
        None => None,
    }
}

/// The value is the boolean `b`.
pub open spec fn is_bool(v: Option<JsonValue>, b: bool) -> bool {
    v matches Some(JsonValue::Bool(x)) && x == b
}

/// Takes the entries of an object found under a key: an absent key gives no
/// entries, anything that is not an object gives `None`.
fn take_object(v: Option<JsonValue>) -> (r: Option<Vec<(String, JsonValue)>>)
    ensures
        match entries_or_empty(v) {
            Some(e) => r matches Some(x) && x@ == e,
            None => r is None,
        },
{
    match v {
        None => Some(Vec::new()),
        Some(JsonValue::Object(e)) => Some(e),
        Some(_) => None,
    }
}

/// Where the mod launch arguments of the game sit in `Battle.net.config`:
/// `Games.osic.AdditionalLaunchArguments`.
pub open spec fn mod_args_value(config: JsonValue) -> Option<JsonValue> {
    at(at(field(config, "Games"@), "osic"@), "AdditionalLaunchArguments"@)
}

/// The mod launch arguments recorded in a `Battle.net.config` document:
/// the string at `Games.osic.AdditionalLaunchArguments`, or `None` where any
/// step of that path is missing or of another kind.
pub fn read_mod_args(config: &JsonValue) -> (r: Option<String>)
    ensures
        match mod_args_value(*config) {
            Some(JsonValue::Str(s)) => r matches Some(x) && x@ == s@,
            _ => r is None,
        },
{
    let games = match config {
        JsonValue::Object(e) => match find_key(e, chars_of("Games").as_slice()) {
            Some(i) => &e[i].1,
            None => return None,
        },
        _ => return None,
    };
    let osic = match games {
        JsonValue::Object(e) => match find_key(e, chars_of("osic").as_slice()) {
            Some(i) => &e[i].1,
            None => return None,
        },
        _ => return None,
    };
    match osic {
        JsonValue::Object(e) => match find_key(e, chars_of("AdditionalLaunchArguments").as_slice()) {
            Some(i) => match &e[i].1 {
                JsonValue::Str(s) => Some(copy_string(s.as_str())),
                _ => None,
            },
            None => None,
        },
        _ => None,
    }
}

/// `after` is `before` with the mod launch arguments set to `args`, or
/// removed when `args` is empty; the `Games` and `Games.osic` objects are
/// created where they were missing and nothing else changes.
pub open spec fn mod_args_injected(before: JsonValue, after: JsonValue, args: Seq<char>) -> bool {
    &&& before matches JsonValue::Object(root0)
    &&& after matches JsonValue::Object(root1)
    &&& same_except(root0@, root1@, "Games"@)
    &&& entries_or_empty(field(before, "Games"@)) matches Some(g0)
    &&& field(after, "Games"@) matches Some(JsonValue::Object(g1))
    &&& same_except(g0, g1@, "osic"@)
    &&& entries_or_empty(lookup(g0, "osic"@)) matches Some(o0)
    &&& lookup(g1@, "osic"@) matches Some(JsonValue::Object(o1))
    &&& same_except(o0, o1@, "AdditionalLaunchArguments"@)
    &&& if args.len() == 0 {
        lookup(o1@, "AdditionalLaunchArguments"@) is None
    } else {
        is_str(lookup(o1@, "AdditionalLaunchArguments"@), args)
    }
}

/// The entries of `Games` in a document whose root is an object (none when
/// the key is absent); `None` when the root or `Games` is not an object.
pub open spec fn games_entries(config: JsonValue) -> Option<Seq<(String, JsonValue)>> {
    match config {
        JsonValue::Object(e) => entries_or_empty(lookup(e@, "Games"@)),
        _ => None,
    }
}

/// The entries of `Games.osic`, read the same way.
pub open spec fn osic_entries(config: JsonValue) -> Option<Seq<(String, JsonValue)>> {
    match games_entries(config) {
        Some(g) => entries_or_empty(lookup(g, "osic"@)),
        None => None,
    }
}

/// Writes the mod launch arguments into a `Battle.net.config` document
/// (see `mod_args_injected`).  The root, `Games` and `Games.osic` must be
/// objects where present; otherwise the matching `ConfigReadError` comes back.
pub fn inject_mod_args(config: JsonValue, mod_args: &str) -> (r: Result<JsonValue, AppError>)
    ensures
        !(config is Object) ==> (r matches Err(e) && is_config_read_error(
            e,
            "Battle.net.config 根节点不是 JSON 对象"@,
        )),
        config is Object && games_entries(config) is None ==> (r matches Err(e)
            && is_config_read_error(e, "Battle.net.config Games 不是 JSON 对象"@)),
        games_entries(config) is Some && osic_entries(config) is None ==> (r matches Err(e)
            && is_config_read_error(e, "Battle.net.config Games.osic 不是 JSON 对象"@)),
        osic_entries(config) is Some ==> (r matches Ok(after) && mod_args_injected(
            config,
            after,
            mod_args@,
        )),
{
    let mut root = match config {
        JsonValue::Object(e) => e,
        _ => {
            return Err(AppError::ConfigReadError(copy_string("Battle.net.config 根节点不是 JSON 对象")));
        },
    };
    let ghost root0 = root@;
    let games_val = remove_key(&mut root, "Games");
    let mut games = match take_object(games_val) {
        Some(g) => g,
        None => {
            return Err(AppError::ConfigReadError(copy_string("Battle.net.config Games 不是 JSON 对象")));
        },
    };
    let ghost g0 = games@;
    let osic_val = remove_key(&mut games, "osic");
    let mut osic = match take_object(osic_val) {
        Some(o) => o,
        None => {
            return Err(
                AppError::ConfigReadError(copy_string("Battle.net.config Games.osic 不是 JSON 对象")),
            );
        },
    };
    let ghost o0 = osic@;
    if mod_args.is_empty() {
        remove_key(&mut osic, "AdditionalLaunchArguments");
    } else {
        set_key(&mut osic, "AdditionalLaunchArguments", JsonValue::Str(copy_string(mod_args)));
    }
    let ghost o1 = osic@;
    let ghost g_mid = games@;
    set_key(&mut games, "osic", JsonValue::Object(osic));
    let ghost r_mid = root@;
    set_key(&mut root, "Games", JsonValue::Object(games));
    proof {
        assert(same_except(g0, games@, "osic"@));
        assert(same_except(root0, root@, "Games"@));
    }
    Ok(JsonValue::Object(root))
}

/// The `Client.SingleInstance` setting of a `Battle.net.config` document is
/// a string other than `"true"`: the only case in which it is rewritten.
pub open spec fn single_instance_off(config: JsonValue) -> bool {
    at(field(config, "Client"@), "SingleInstance"@) matches Some(JsonValue::Str(s)) && s@
        != "true"@
}

/// Makes sure the Battle.net client runs as a single instance: where
/// `Client` is an object whose `SingleInstance` is a string other than
/// `"true"`, it becomes `"true"`.  A missing value, or one that is not a
/// string, counts as `"true"` and is left alone.  The flag says whether the
/// document changed (and so needs writing back).
pub fn enforce_single_instance(config: JsonValue) -> (r: (JsonValue, bool))
    ensures
        r.1 == single_instance_off(config),
        !r.1 ==> r.0 == config,
        r.1 ==> {
            &&& config matches JsonValue::Object(root0)
            &&& r.0 matches JsonValue::Object(root1)
            &&& same_except(root0@, root1@, "Client"@)
            &&& field(config, "Client"@) matches Some(JsonValue::Object(c0))
            &&& field(r.0, "Client"@) matches Some(JsonValue::Object(c1))
            &&& same_except(c0@, c1@, "SingleInstance"@)
            &&& is_str(lookup(c1@, "SingleInstance"@), "true"@)
        },
{
    let off = match &config {
        JsonValue::Object(e) => match find_key(e, chars_of("Client").as_slice()) {
            Some(i) => match &e[i].1 {
                JsonValue::Object(c) => match find_key(c, chars_of("SingleInstance").as_slice()) {
                    Some(j) => match &c[j].1 {
                        JsonValue::Str(v) => !str_eq(v.as_str(), "true"),
                        _ => false,
                    },
                    None => false,
                },
                _ => false,
            },
            None => false,
        },
        _ => false,
    };
    proof {
        reveal_strlit("true");
    }
    if !off {
        return (config, false);
    }
    let mut root = match config {
        JsonValue::Object(e) => e,
        _ => {
            return (config, false);
        },
    };
    let ghost root0 = root@;
    let client_val = remove_key(&mut root, "Client");
    let mut client = match client_val {
        Some(JsonValue::Object(c)) => c,
        _ => {
            assert(false);
            return (JsonValue::Object(root), false);
        },
    };
    set_key(&mut client, "SingleInstance", JsonValue::Str(copy_string("true")));
    set_key(&mut root, "Client", JsonValue::Object(client));
    (JsonValue::Object(root), true)
}

/// `after` is the browser preferences `before` with the profile named
/// `name`: where the root is an object and `profile` is an object (created
/// when absent), `profile.name` becomes `name` and
/// `profile.is_using_default_name` becomes `false`.  Otherwise nothing
/// changes.
pub open spec fn profile_named(before: JsonValue, after: JsonValue, name: Seq<char>) -> bool {
    match before {
        JsonValue::Object(root0) => match entries_or_empty(lookup(root0@, "profile"@)) {
            Some(p0) => {
                &&& after matches JsonValue::Object(root1)
                &&& same_except(root0@, root1@, "profile"@)
                &&& lookup(root1@, "profile"@) matches Some(JsonValue::Object(p1))
                &&& forall|k: Seq<char>|
                    k != "name"@ && k != "is_using_default_name"@ ==> #[trigger] lookup(p1@, k)
                        == lookup(p0, k)
                &&& is_str(lookup(p1@, "name"@), name)
                &&& is_bool(lookup(p1@, "is_using_default_name"@), false)
            },
            None => after == before,
        },
        _ => after == before,
    }
}

/// Names the browser profile in its preferences document (see
/// `profile_named`), so that the browser does not show a name of its own.
pub fn set_profile_name(prefs: JsonValue, display_name: &str) -> (r: JsonValue)
    ensures
        profile_named(prefs, r, display_name@),
{
    let mut root = match prefs {
        JsonValue::Object(e) => e,
        _ => {
            return prefs;
        },
    };
    let ghost root0 = root@;
    let is_obj = match find_key(&root, chars_of("profile").as_slice()) {
        Some(i) => match &root[i].1 {
            JsonValue::Object(_) => true,
            _ => false,
        },
        None => true,
    };
    if !is_obj {
        return JsonValue::Object(root);
    }
    let profile_val = remove_key(&mut root, "profile");
    let mut profile = match take_object(profile_val) {
        Some(p) => p,
        None => {
            assert(false);
            return JsonValue::Object(root);
        },
    };
    let ghost p0 = profile@;
    set_key(&mut profile, "name", JsonValue::Str(copy_string(display_name)));
    let ghost p_mid = profile@;
    set_key(&mut profile, "is_using_default_name", JsonValue::Bool(false));
    proof {
        assert forall|k: Seq<char>|
            k != "name"@ && k != "is_using_default_name"@ implies #[trigger] lookup(profile@, k)
            == lookup(p0, k) by {
            assert(lookup(profile@, k) == lookup(p_mid, k));
        }
        reveal_strlit("name");
        reveal_strlit("is_using_default_name");
        assert("name"@ != "is_using_default_name"@) by {
            assert("name"@.len() != "is_using_default_name"@.len());
        }
        assert(lookup(profile@, "name"@) == lookup(p_mid, "name"@));
    }
    set_key(&mut root, "profile", JsonValue::Object(profile));
    JsonValue::Object(root)
}

/// Reading the mod arguments back after writing them gives what was
/// written: the arguments, or none when they were empty.
pub proof fn lemma_read_after_inject(before: JsonValue, after: JsonValue, args: Seq<char>)
    requires
        mod_args_injected(before, after, args),
    ensures
        args.len() == 0 ==> mod_args_value(after) is None,
        args.len() > 0 ==> is_str(mod_args_value(after), args),
{
}

/// Enforcing single-instance mode twice changes nothing the second time.
pub proof fn lemma_single_instance_settles(config: JsonValue, once: JsonValue)
    requires
        single_instance_off(config) ==> ({
            &&& config matches JsonValue::Object(root0)
            &&& once matches JsonValue::Object(root1)
            &&& same_except(root0@, root1@, "Client"@)
            &&& field(config, "Client"@) matches Some(JsonValue::Object(c0))
            &&& field(once, "Client"@) matches Some(JsonValue::Object(c1))
            &&& same_except(c0@, c1@, "SingleInstance"@)
            &&& is_str(lookup(c1@, "SingleInstance"@), "true"@)
        }),
        !single_instance_off(config) ==> once == config,
    ensures
        !single_instance_off(once),
{
}

} // verus!
