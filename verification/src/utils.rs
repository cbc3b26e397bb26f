//! Small helpers shared by the commands: folder names and process names.
use vstd::prelude::*;
use crate::text::{
    chars_eq, chars_eq_ignore_ascii_case, chars_of, eq_ignore_ascii_case_spec, is_ws,
    string_from_chars, trim_bounds, trim_end_spec, trim_spec, trim_start_spec,
};

verus! {

/// A character Windows refuses in a folder name.
pub open spec fn is_folder_forbidden(c: char) -> bool {
    c == '\\' || c == '/' || c == ':' || c == '*' || c == '?' || c == '"' || c == '<' || c == '>'
        || c == '|'
}

/// `c`, or `_` in place of a forbidden character.
pub open spec fn folder_safe_char(c: char) -> char {
    if is_folder_forbidden(c) {
        '_'
    } else {
        c
    }
}

/// Every character made folder-safe.
pub open spec fn replace_forbidden(s: Seq<char>) -> Seq<char> {
    Seq::new(s.len(), |i: int| folder_safe_char(s[i]))
}

/// The folder name for a nickname: forbidden characters become `_`, the
/// result is trimmed, and an empty result becomes `D2RHub_Default`.
pub open spec fn sanitize_folder_name_spec(name: Seq<char>) -> Seq<char> {
    let t = trim_spec(replace_forbidden(name));
    if t.len() == 0 {
        "D2RHub_Default"@
    } else {
        t
    }
}

/// Turns a nickname into a usable Windows folder name.
pub fn sanitize_folder_name(name: &str) -> (r: String)
    ensures
        r@ == sanitize_folder_name_spec(name@),
{
    let v = chars_of(name);
    let mut m: Vec<char> = Vec::new();
    let mut i: usize = 0;
    while i < v.len()
        invariant
            i <= v.len(),
            m@ == replace_forbidden(v@).take(i as int),
        decreases v.len() - i,
    {
        let c = v[i];
        let d = if c == '\\' || c == '/' || c == ':' || c == '*' || c == '?' || c == '"' || c
            == '<' || c == '>' || c == '|' {
            '_'
        } else {
            c
        };
        m.push(d);
        assert(replace_forbidden(v@).take(i as int + 1) == replace_forbidden(v@).take(
            i as int,
        ).push(d));
        i += 1;
    }
    assert(replace_forbidden(v@).take(v.len() as int) == replace_forbidden(v@));
    let (a, b) = trim_bounds(m.as_slice());
    if a == b {
        return string_from_chars(chars_of("D2RHub_Default").as_slice());
    }
    string_from_chars(&m.as_slice()[a..b])
}

proof fn lemma_trim_fixed(t: Seq<char>)
    requires
        t.len() == 0 || (!is_ws(t[0]) && !is_ws(t.last())),
    ensures
        trim_spec(t) == t,
{
    assert(trim_start_spec(t) == t);
    assert(trim_end_spec(t) == t);
}

proof fn lemma_trim_ends(s: Seq<char>)
    ensures
        trim_spec(s).len() == 0 || (!is_ws(trim_spec(s)[0]) && !is_ws(trim_spec(s).last())),
        forall|c: char| trim_spec(s).contains(c) ==> s.contains(c),
{
    lemma_trim_start_ends(s);
    lemma_trim_end_ends(trim_start_spec(s));
}

proof fn lemma_trim_start_ends(s: Seq<char>)
    ensures
        trim_start_spec(s).len() == 0 || !is_ws(trim_start_spec(s)[0]),
        forall|c: char| trim_start_spec(s).contains(c) ==> s.contains(c),
    decreases s.len(),
{
    if s.len() > 0 && is_ws(s[0]) {
        lemma_trim_start_ends(s.drop_first());
        assert forall|c: char| trim_start_spec(s).contains(c) implies s.contains(c) by {
            assert(trim_start_spec(s) == trim_start_spec(s.drop_first()));
            assert(s.drop_first().contains(c));
            let k = choose|k: int| 0 <= k < s.drop_first().len() && s.drop_first()[k] == c;
            assert(s[k + 1] == c);
        }
    }
}

proof fn lemma_trim_end_ends(s: Seq<char>)
    ensures
        trim_end_spec(s).len() == 0 || (trim_end_spec(s).len() <= s.len() && !is_ws(
            trim_end_spec(s).last(),
        ) && (s.len() > 0 && !is_ws(s[0]) ==> trim_end_spec(s)[0] == s[0])),
        forall|c: char| trim_end_spec(s).contains(c) ==> s.contains(c),
    decreases s.len(),
{
    if s.len() > 0 && is_ws(s.last()) {
        lemma_trim_end_ends(s.drop_last());
        if s.len() > 1 {
            assert(s.drop_last()[0] == s[0]);
        }
        assert forall|c: char| trim_end_spec(s).contains(c) implies s.contains(c) by {
            assert(trim_end_spec(s) == trim_end_spec(s.drop_last()));
            assert(s.drop_last().contains(c));
            let k = choose|k: int| 0 <= k < s.drop_last().len() && s.drop_last()[k] == c;
            assert(s[k] == c);
        }
    }
}

/// Sanitizing an already sanitized name changes nothing; the result is never
/// empty and holds no forbidden character.
pub proof fn lemma_sanitize_folder_name_idempotent(name: Seq<char>)
    ensures
        sanitize_folder_name_spec(name).len() > 0,
        forall|i: int|
            0 <= i < sanitize_folder_name_spec(name).len() ==> !is_folder_forbidden(
                #[trigger] sanitize_folder_name_spec(name)[i],
            ),
        sanitize_folder_name_spec(sanitize_folder_name_spec(name)) == sanitize_folder_name_spec(
            name,
        ),
{
    reveal_strlit("D2RHub_Default");
    let r = replace_forbidden(name);
    let t = trim_spec(r);
    lemma_trim_ends(r);
    lemma_trim_start_ends(r);
    let s = sanitize_folder_name_spec(name);
    assert forall|i: int| 0 <= i < s.len() implies !is_folder_forbidden(#[trigger] s[i]) by {
        if t.len() > 0 {
            assert(t.contains(s[i]));
            assert(r.contains(s[i]));
            let k = choose|k: int| 0 <= k < r.len() && r[k] == s[i];
            assert(r[k] == folder_safe_char(name[k]));
        }
    }
    assert(replace_forbidden(s) == s);
    lemma_trim_fixed(s);
}

/// Whether `name` equals one of `targets` up to ASCII case.
pub fn process_name_matches(name: &str, targets: &[&str]) -> (r: bool)
    ensures
        r == exists|i: int|
            0 <= i < targets@.len() && eq_ignore_ascii_case_spec(name@, (#[trigger] targets@[i])@),
{
    let n = chars_of(name);
    let mut i: usize = 0;
    while i < targets.len()
        invariant
            i <= targets.len(),
            n@ == name@,
            forall|k: int| 0 <= k < i ==> !eq_ignore_ascii_case_spec(name@, (#[trigger] targets@[k])@),
        decreases targets.len() - i,
    {
        let t = chars_of(targets[i]);
        if chars_eq_ignore_ascii_case(n.as_slice(), t.as_slice()) {
            return true;
        }
        i += 1;
    }
    false
}

/// The folder names before and after a rename, when they differ: the
/// browser profile folder is renamed only then.
pub fn profile_rename(old_display_name: &str, new_name: &str) -> (r: Option<(String, String)>)
    ensures
        sanitize_folder_name_spec(old_display_name@) != sanitize_folder_name_spec(new_name@)
            <==> r is Some,
        r matches Some(p) ==> p.0@ == sanitize_folder_name_spec(old_display_name@) && p.1@
            == sanitize_folder_name_spec(new_name@),
{
    let old_profile = sanitize_folder_name(old_display_name);
    let new_profile = sanitize_folder_name(new_name);
    let a = chars_of(old_profile.as_str());
    let b = chars_of(new_profile.as_str());
    if chars_eq(a.as_slice(), b.as_slice()) {
        None
    } else {
        Some((old_profile, new_profile))
    }
}


/// A folder name made from a nickname never holds a character Windows
/// refuses in folder names: none of `\ / : * ? " < > |`.
pub proof fn lemma_sanitized_name_is_windows_safe(name: Seq<char>)
    ensures
        forall|i: int|
            0 <= i < sanitize_folder_name_spec(name).len() ==> {
                let c = #[trigger] sanitize_folder_name_spec(name)[i];
                &&& c != '\\'
                &&& c != '/'
                &&& c != ':'
                &&& c != '*'
                &&& c != '?'
                &&& c != '"'
                &&& c != '<'
                &&& c != '>'
                &&& c != '|'
            },
{
    lemma_sanitize_folder_name_idempotent(name);
}

/// For a nickname that does not start or end with white space, the folder
/// name has one character per character of the nickname: each of
/// `\ / : * ? " < > |` becomes `_`, every other character stays.
pub proof fn lemma_sanitize_replaces_each_forbidden_char(name: Seq<char>)
    requires
        name.len() > 0,
        !is_ws(name[0]),
        !is_ws(name.last()),
    ensures
        sanitize_folder_name_spec(name).len() == name.len(),
        forall|i: int|
            0 <= i < name.len() ==> #[trigger] sanitize_folder_name_spec(name)[i] == (if name[i] == '\\'
                || name[i] == '/' || name[i] == ':' || name[i] == '*' || name[i] == '?' || name[i] == '"'
                || name[i] == '<' || name[i] == '>' || name[i] == '|' {
                '_'
            } else {
                name[i]
            }),
{
    let r = replace_forbidden(name);
    assert(r[0] == folder_safe_char(name[0]));
    assert(r.last() == folder_safe_char(name.last()));
    assert(!is_ws('_'));
    lemma_trim_fixed(r);
}

} // verus!
