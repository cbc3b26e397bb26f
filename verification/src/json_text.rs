//! JSON text, read and written through `serde_json`, and the edits of the
//! client configuration and the browser preferences made on the text of
//! their files.
use vstd::prelude::*;
use crate::error::{is_config_read_error, AppError};
use crate::json::{
    enforce_single_instance, games_entries, inject_mod_args, mod_args_value, osic_entries,
    profile_named, read_mod_args, same_except, set_profile_name, single_instance_off, field, lookup,
    is_str, JsonValue,
};

verus! {

#[verifier::external_type_specification]
#[verifier::external_body]
pub struct ExJsonDocument(serde_json::Value);

/// The document that `serde_json::from_str::<serde_json::Value>` reads from
/// the text, as a `JsonValue` (numbers keep the text `serde_json` writes
/// for them, objects list their entries in `serde_json`'s order); `None`
/// when the text is not JSON.
pub uninterp spec fn json_of_text(text: Seq<char>) -> Option<JsonValue>;

/// The message of the `serde_json` error for text that is not JSON.
pub uninterp spec fn json_error_of_text(text: Seq<char>) -> Seq<char>;

/// The text `serde_json::to_string_pretty` writes for the document (an
/// object key that occurs twice is written with its first value).
pub uninterp spec fn pretty_json(doc: JsonValue) -> Seq<char>;

/// Converts a parsed `serde_json::Value`, variant by variant.
#[verifier::external_body]
fn document_of_value(v: serde_json::Value) -> JsonValue {
    match v {
        serde_json::Value::Null => JsonValue::Null,
        serde_json::Value::Bool(b) => JsonValue::Bool(b),
        serde_json::Value::Number(n) => JsonValue::Number(n.to_string()),
        serde_json::Value::String(s) => JsonValue::Str(s),
        serde_json::Value::Array(a) => JsonValue::Array(a.into_iter().map(document_of_value).collect()),
        serde_json::Value::Object(o) => JsonValue::Object(o.into_iter().map(|(k, x)| (k, document_of_value(x))).collect()),
    }
}

/// Converts a document into a `serde_json::Value`, variant by variant.
#[verifier::external_body]
fn value_of_document(d: &JsonValue) -> serde_json::Value {
    match d {
        JsonValue::Null => serde_json::Value::Null,
        JsonValue::Bool(b) => serde_json::Value::Bool(*b),
        JsonValue::Number(n) => serde_json::from_str(n).unwrap_or(serde_json::Value::Null),
        JsonValue::Str(s) => serde_json::Value::String(s.clone()),
        JsonValue::Array(a) => serde_json::Value::Array(a.iter().map(value_of_document).collect()),
        JsonValue::Object(e) => serde_json::Value::Object(e.iter().rev().map(|(k, x)| (k.clone(), value_of_document(x))).collect()),
    }
}

/// `serde_json::from_str::<serde_json::Value>`: the document the text holds
/// (see `json_of_text`), or the parser's error message.
#[verifier::external_body]
pub fn parse_json_text(text: &str) -> (r: Result<JsonValue, String>)
    ensures
        match json_of_text(text@) {
            Some(doc) => r matches Ok(d) && d == doc,
            None => r matches Err(e) && e@ == json_error_of_text(text@),
        },
{
    serde_json::from_str::<serde_json::Value>(text).map(document_of_value).map_err(|e| e.to_string())
}

/// `serde_json::to_string_pretty` of the document (see `pretty_json`).
#[verifier::external_body]
pub fn json_pretty_text(doc: &JsonValue) -> (r: String)
    ensures
        r@ == pretty_json(*doc),
{
    serde_json::to_string_pretty(&value_of_document(doc)).unwrap_or_default()
}

/// The mod launch arguments recorded in the text of a `Battle.net.config`
/// (see `read_mod_args`); `None` also when the text is not JSON.
pub fn read_mod_args_text(text: &str) -> (r: Option<String>)
    ensures
        match json_of_text(text@) {
            Some(doc) => match mod_args_value(doc) {
                Some(JsonValue::Str(s)) => r matches Some(x) && x@ == s@,
                _ => r is None,
            },
            None => r is None,
        },
{
    match parse_json_text(text) {
        Ok(doc) => read_mod_args(&doc),
        Err(_) => None,
    }
}

/// Writes the mod launch arguments into the text of a `Battle.net.config`
/// (see `inject_mod_args`) and gives the new text, pretty-printed.  Text
/// that is not JSON is a `ConfigReadError` with the parser's message.
pub fn inject_mod_args_text(text: &str, mod_args: &str) -> (r: Result<String, AppError>)
    ensures
        json_of_text(text@) is None ==> (r matches Err(e) && is_config_read_error(e, json_error_of_text(text@))),
        json_of_text(text@) matches Some(doc) ==> {
            &&& !(doc is Object) ==> (r matches Err(e) && is_config_read_error(
                e,
                "Battle.net.config 根节点不是 JSON 对象"@,
            ))
            &&& doc is Object && games_entries(doc) is None ==> (r matches Err(e)
                && is_config_read_error(e, "Battle.net.config Games 不是 JSON 对象"@))
            &&& games_entries(doc) is Some && osic_entries(doc) is None ==> (r matches Err(e)
                && is_config_read_error(e, "Battle.net.config Games.osic 不是 JSON 对象"@))
            &&& osic_entries(doc) is Some ==> (r matches Ok(t) && exists|after: JsonValue|
                crate::json::mod_args_injected(doc, after, mod_args@) && t@ == pretty_json(after))
        },
{
    let doc = match parse_json_text(text) {
        Ok(d) => d,
        Err(e) => {
            return Err(AppError::ConfigReadError(e));
        },
    };
    let after = inject_mod_args(doc, mod_args)?;
    Ok(json_pretty_text(&after))
}

/// Makes sure the text of a `Battle.net.config` sets single-instance mode
/// (see `enforce_single_instance`): the new text, pretty-printed, when the
/// document had to change, `None` when it already did.  Text that is not
/// JSON is a `ConfigReadError` with the parser's message.
pub fn enforce_single_instance_text(text: &str) -> (r: Result<Option<String>, AppError>)
    ensures
        json_of_text(text@) is None ==> (r matches Err(e) && is_config_read_error(e, json_error_of_text(text@))),
        json_of_text(text@) matches Some(doc) ==> {
            &&& !single_instance_off(doc) ==> (r matches Ok(None))
            &&& single_instance_off(doc) ==> (r matches Ok(Some(t)) && exists|after: JsonValue|
                {
                    &&& doc matches JsonValue::Object(root0)
                    &&& after matches JsonValue::Object(root1)
                    &&& same_except(root0@, root1@, "Client"@)
                    &&& field(doc, "Client"@) matches Some(JsonValue::Object(c0))
                    &&& field(after, "Client"@) matches Some(JsonValue::Object(c1))
                    &&& same_except(c0@, c1@, "SingleInstance"@)
                    &&& is_str(lookup(c1@, "SingleInstance"@), "true"@)
                    &&& t@ == #[trigger] pretty_json(after)
                })
        },
{
    let doc = match parse_json_text(text) {
        Ok(d) => d,
        Err(e) => {
            return Err(AppError::ConfigReadError(e));
        },
    };
    let (after, changed) = enforce_single_instance(doc);
    if changed {
        Ok(Some(json_pretty_text(&after)))
    } else {
        Ok(None)
    }
}

/// The preferences a browser profile starts from: the document in the
/// text of its file when there is one and it is JSON, else an object with
/// no entries.
pub open spec fn prefs_start(existing: Option<Seq<char>>, start: JsonValue) -> bool {
    match existing {
        Some(t) => match json_of_text(t) {
            Some(doc) => start == doc,
            None => start matches JsonValue::Object(e) && e@.len() == 0,
        },
        None => start matches JsonValue::Object(e) && e@.len() == 0,
    }
}

/// The text of a browser profile's preferences after naming the profile
/// (see `set_profile_name`), from the text of the file when it could be
/// read; unreadable or non-JSON preferences start over as an empty object.
pub fn set_profile_name_text(existing: Option<&str>, display_name: &str) -> (r: String)
    ensures
        exists|start: JsonValue, after: JsonValue|
            prefs_start(
                match existing {
                    Some(t) => Some(t@),
                    None => None,
                },
                start,
            ) && profile_named(start, after, display_name@) && r@ == pretty_json(after),
{
    let prefs = match existing {
        Some(t) => match parse_json_text(t) {
            Ok(d) => d,
            Err(_) => JsonValue::Object(Vec::new()),
        },
        None => JsonValue::Object(Vec::new()),
    };
    let after = set_profile_name(prefs, display_name);
    json_pretty_text(&after)
}

} // verus!
