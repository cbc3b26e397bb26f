//! Accounts: their metadata, their ids and the rules for creating and
//! updating them.
use vstd::prelude::*;
use crate::clock::{hours_since_rfc3339, now_rfc3339, rfc3339_parses};
use crate::crypto::{hex_encode, hex_encode_spec};
use crate::error::{error_text, fails_with_file_error, AppError};
use crate::text::{
    eq_ignore_ascii_case, eq_ignore_ascii_case_spec,
    chars_lex_le, lemma_lex_le_total, lemma_lex_le_trans, lex_le,
    all_dec_digits, dec_value, lemma_to_decimal, parse_bounded_spec, parse_decimal,
    parse_unsigned_spec, strip_plus, to_decimal, u64_to_decimal, chars_of, chars_start_with, copy_string, is_blank, is_dec_digit, starts_with_spec,
    str_eq, trim_spec,
};

verus! {

/// Account metadata, stored as `accounts/{id}/account.json`.
#[derive(Debug, Clone)]
pub struct AccountMeta {
    pub id: String,
    pub display_name: String,
    pub mod_args: String,
    pub mod_list: Vec<String>,
    pub created_at: String,
    pub last_launched_at: Option<String>,
    pub initialized: bool,
    /// When the account was last initialised or reset; the token's age counts from here.
    pub last_reset_at: Option<String>,
    pub order: u32,
    pub is_running: bool,
    /// Pid of the running game process, if any.
    pub running_pid: Option<u32>,
    /// Wanted x position of the game window (`None`: leave it).
    pub window_x: Option<i32>,
    /// Wanted y position of the game window (`None`: leave it).
    pub window_y: Option<i32>,
    /// `"bnet"` or `"token"`.
    pub auth_mode: Option<String>,
    /// Service region of a token account.
    pub region: Option<String>,
    /// Hexadecimal text of the protected token.
    pub token: Option<String>,
    pub has_customized_settings: bool,
    /// Interface language (`zhCN`, `zhTW`, `enUS`).
    pub language: Option<String>,
    /// Voice language (`zhCN`, `zhTW`, `enUS`).
    pub voicelanguage: Option<String>,
}

/// The metadata that `AccountMeta::new` gives an account, apart from its creation time.
pub open spec fn is_fresh_meta(m: AccountMeta, id: Seq<char>) -> bool {
    &&& m.id@ == id
    &&& m.display_name@.len() == 0
    &&& m.mod_args@.len() == 0
    &&& m.mod_list@.len() == 0
    &&& m.last_launched_at is None
    &&& !m.initialized
    &&& m.last_reset_at is None
    &&& m.order == 0
    &&& !m.is_running
    &&& m.running_pid is None
    &&& m.window_x is None
    &&& m.window_y is None
    &&& m.auth_mode is None
    &&& m.region is None
    &&& m.token is None
    &&& !m.has_customized_settings
    &&& m.language is None
    &&& m.voicelanguage is None
}

impl AccountMeta {
    /// A new account with this id and every other field empty; `created_at`
    /// is the current time.
    pub fn new(id: &str) -> (m: Self)
        ensures
            is_fresh_meta(m, id@),
    {
        AccountMeta {
            id: copy_string(id),
            display_name: String::new(),
            mod_args: String::new(),
            mod_list: Vec::new(),
            created_at: now_rfc3339(),
            last_launched_at: None,
            initialized: false,
            last_reset_at: None,
            order: 0,
            is_running: false,
            running_pid: None,
            window_x: None,
            window_y: None,
            auth_mode: None,
            region: None,
            token: None,
            has_customized_settings: false,
            language: None,
            voicelanguage: None,
        }
    }
}

// ---------------------------------------------------------------------------
// Account ids
// ---------------------------------------------------------------------------

/// A character that no account id may hold (it would leave the accounts directory).
pub open spec fn is_path_char(c: char) -> bool {
    c == '\\' || c == '/' || c == ':'
}

/// `char::is_ascii_hexdigit`.
pub open spec fn is_hex_digit(c: char) -> bool {
    ('0' <= c <= '9') || ('a' <= c <= 'f') || ('A' <= c <= 'F')
}

/// Positions of the dashes in a UUID.
pub open spec fn is_uuid_dash_pos(i: int) -> bool {
    i == 8 || i == 13 || i == 18 || i == 23
}

/// Five `-`-separated groups of 8, 4, 4, 4 and 12 hexadecimal digits.
pub open spec fn is_uuid_shape(s: Seq<char>) -> bool {
    s.len() == 36 && forall|i: int|
        0 <= i < 36 ==> if is_uuid_dash_pos(i) {
            #[trigger] s[i] == '-'
        } else {
            is_hex_digit(s[i])
        }
}

/// An account id: `acount` followed by one or more decimal digits, or a UUID.
pub open spec fn valid_account_id(s: Seq<char>) -> bool {
    if s.len() == 0 || s == "."@ || s == ".."@ || exists|i: int|
        0 <= i < s.len() && is_path_char(#[trigger] s[i]) {
        false
    } else if starts_with_spec(s, "acount"@) {
        let rest = s.skip("acount"@.len() as int);
        rest.len() > 0 && all_dec_digits(rest)
    } else {
        is_uuid_shape(s)
    }
}

fn is_hex_digit_char(c: char) -> (b: bool)
    ensures
        b == is_hex_digit(c),
{
    ('0' <= c && c <= '9') || ('a' <= c && c <= 'f') || ('A' <= c && c <= 'F')
}

fn has_path_char(v: &[char]) -> (b: bool)
    ensures
        b == exists|i: int| 0 <= i < v@.len() && is_path_char(#[trigger] v@[i]),
{
    let mut i: usize = 0;
    while i < v.len()
        invariant
            i <= v.len(),
            forall|k: int| 0 <= k < i ==> !is_path_char(#[trigger] v@[k]),
        decreases v.len() - i,
    {
        if v[i] == '\\' || v[i] == '/' || v[i] == ':' {
            return true;
        }
        i += 1;
    }
    false
}

fn all_digits_from(v: &[char], start: usize) -> (b: bool)
    requires
        start <= v.len(),
    ensures
        b == all_dec_digits(v@.skip(start as int)),
{
    let ghost rest = v@.skip(start as int);
    let mut i: usize = start;
    while i < v.len()
        invariant
            start <= i <= v.len(),
            rest == v@.skip(start as int),
            forall|k: int| 0 <= k < i - start ==> is_dec_digit(#[trigger] rest[k]),
        decreases v.len() - i,
    {
        if !('0' <= v[i] && v[i] <= '9') {
            assert(!is_dec_digit(rest[i - start]));
            return false;
        }
        i += 1;
    }
    true
}

fn uuid_shaped(v: &[char]) -> (b: bool)
    ensures
        b == is_uuid_shape(v@),
{
    if v.len() != 36 {
        return false;
    }
    let mut i: usize = 0;
    while i < 36
        invariant
            i <= 36,
            v.len() == 36,
            forall|k: int|
                0 <= k < i ==> if is_uuid_dash_pos(k) {
                    #[trigger] v@[k] == '-'
                } else {
                    is_hex_digit(v@[k])
                },
        decreases 36 - i,
    {
        let ok = if i == 8 || i == 13 || i == 18 || i == 23 {
            v[i] == '-'
        } else {
            is_hex_digit_char(v[i])
        };
        if !ok {
            return false;
        }
        i += 1;
    }
    true
}

/// Namespace of the account-store operations.
pub struct AccountManager;

impl AccountManager {
    /// Whether `id` is an account id: `acount` followed by decimal digits,
    /// or a UUID; never `.`/`..` or anything holding `\`, `/` or `:`.
    pub fn is_valid_account_id(id: &str) -> (b: bool)
        ensures
            b == valid_account_id(id@),
    {
        let v = chars_of(id);
        if v.len() == 0 || str_eq(id, ".") || str_eq(id, "..") || has_path_char(v.as_slice()) {
            return false;
        }
        let prefix = chars_of("acount");
        if chars_start_with(v.as_slice(), prefix.as_slice()) {
            return v.len() > prefix.len() && all_digits_from(v.as_slice(), prefix.len());
        }
        uuid_shaped(v.as_slice())
    }

    /// `Ok` exactly for a valid account id; otherwise a `FileError` naming it.
    pub fn validate_account_id(id: &str) -> (r: Result<(), AppError>)
        ensures
            r is Ok <==> valid_account_id(id@),
            r is Err ==> fails_with_file_error(r, "账号 ID 非法: "@ + id@),
    {
        if Self::is_valid_account_id(id) {
            Ok(())
        } else {
            let mut m = copy_string("账号 ID 非法: ");
            m.append(id);
            Err(AppError::FileError(m))
        }
    }

    /// The checks that come before an account directory is resolved: the id
    /// is valid and the accounts root is not blank.
    pub fn account_dir_precheck(accounts_dir: &str, id: &str) -> (r: Result<(), AppError>)
        ensures
            r is Ok <==> valid_account_id(id@) && trim_spec(accounts_dir@).len() > 0,
            !valid_account_id(id@) ==> fails_with_file_error(r, "账号 ID 非法: "@ + id@),
            valid_account_id(id@) && trim_spec(accounts_dir@).len() == 0 ==> fails_with_file_error(
                r,
                "账号根目录为空"@,
            ),
    {
        Self::validate_account_id(id)?;
        if is_blank(accounts_dir) {
            return Err(AppError::FileError(copy_string("账号根目录为空")));
        }
        Ok(())
    }
}


/// The number of an `acount<n>` id, as `next_id` reads it: the text after
/// `acount` parsed as a `u32`.
pub open spec fn id_number(id: Seq<char>) -> Option<nat> {
    if starts_with_spec(id, "acount"@) {
        parse_bounded_spec(id.skip("acount"@.len() as int), u32::MAX as nat)
    } else {
        None
    }
}

/// The largest number among the numbered ids, or 0 when there is none.
pub open spec fn max_id_number(ids: Seq<String>) -> nat
    decreases ids.len(),
{
    if ids.len() == 0 {
        0
    } else {
        let m = max_id_number(ids.drop_last());
        match id_number(ids.last()@) {
            Some(n) => if n > m {
                n
            } else {
                m
            },
            None => m,
        }
    }
}

/// The id after the numbered ids of `ids`: `acount` and one more than the largest number.
pub open spec fn next_id_spec(ids: Seq<String>) -> Seq<char> {
    "acount"@ + to_decimal(max_id_number(ids) + 1)
}

proof fn lemma_max_id_number_bounds(ids: Seq<String>)
    ensures
        max_id_number(ids) <= u32::MAX,
        forall|i: int|
            0 <= i < ids.len() ==> (id_number(#[trigger] ids[i]@) matches Some(n) ==> n
                <= max_id_number(ids)),
    decreases ids.len(),
{
    if ids.len() > 0 {
        lemma_max_id_number_bounds(ids.drop_last());
        assert forall|i: int|
            0 <= i < ids.len() implies (id_number(#[trigger] ids[i]@) matches Some(n) ==> n
            <= max_id_number(ids)) by {
            if i < ids.len() - 1 {
                assert(ids[i] == ids.drop_last()[i]);
            }
        }
    }
}

impl AccountManager {
    /// The next free numbered id: `acount` followed by one more than the
    /// largest number among the existing `acount<n>` ids (`acount1` when
    /// there is none).
    pub fn next_id(existing: &[String]) -> (r: String)
        ensures
            r@ == next_id_spec(existing@),
    {
        let prefix = chars_of("acount");
        let mut max_n: u64 = 0;
        let mut i: usize = 0;
        while i < existing.len()
            invariant
                i <= existing.len(),
                prefix@ == "acount"@,
                max_n as nat == max_id_number(existing@.take(i as int)),
            decreases existing.len() - i,
        {
            let v = chars_of(existing[i].as_str());
            assert(existing@.take(i as int + 1).drop_last() == existing@.take(i as int));
            assert(existing@.take(i as int + 1).last() == existing@[i as int]);
            if chars_start_with(v.as_slice(), prefix.as_slice()) {
                let rest = &v.as_slice()[prefix.len()..v.len()];
                assert(rest@ == v@.skip(prefix@.len() as int));
                match parse_decimal(rest, 0xffff_ffff) {
                    Some(n) => {
                        if n > max_n {
                            max_n = n;
                        }
                    },
                    None => {},
                }
            }
            i += 1;
        }
        assert(existing@.take(existing.len() as int) == existing@);
        proof {
            lemma_max_id_number_bounds(existing@);
        }
        let mut r = copy_string("acount");
        let digits = u64_to_decimal(max_n + 1);
        r.append(digits.as_str());
        r
    }
}

/// `next_id` hands out a valid id that no existing id equals, numbered one
/// above every existing numbered id.
pub proof fn lemma_next_id_is_fresh(ids: Seq<String>)
    requires
        max_id_number(ids) < u32::MAX,
    ensures
        valid_account_id(next_id_spec(ids)),
        id_number(next_id_spec(ids)) == Some((max_id_number(ids) + 1) as nat),
        forall|i: int| 0 <= i < ids.len() ==> (#[trigger] ids[i])@ != next_id_spec(ids),
{
    reveal_strlit("acount");
    reveal_strlit(".");
    reveal_strlit("..");
    let m = max_id_number(ids);
    let p = "acount"@;
    let d = to_decimal((m + 1) as nat);
    let s = next_id_spec(ids);
    lemma_to_decimal((m + 1) as nat);
    lemma_max_id_number_bounds(ids);
    assert(s.subrange(0, 6) == p);
    assert(s.skip(6) == d);
    assert(strip_plus(d) == d);
    assert(parse_unsigned_spec(d) == Some(dec_value(d)));
    assert forall|i: int| 0 <= i < s.len() implies !is_path_char(#[trigger] s[i]) by {
        if i >= 6 {
            assert(s[i] == d[i - 6]);
            assert(is_dec_digit(d[i - 6]));
        }
    }
    assert(s != "."@ && s != ".."@) by {
        assert(s.len() >= 7);
    }
}


/// The names among `names` that are account ids, in their order.
pub open spec fn keep_valid_ids(names: Seq<String>) -> Seq<String>
    decreases names.len(),
{
    if names.len() == 0 {
        Seq::empty()
    } else {
        let r = keep_valid_ids(names.drop_last());
        if valid_account_id(names.last()@) {
            r.push(names.last())
        } else {
            r
        }
    }
}

/// The names are in ascending order.
pub open spec fn sorted_names(s: Seq<String>) -> bool {
    forall|i: int, j: int| 0 <= i < j < s.len() ==> lex_le(#[trigger] s[i]@, #[trigger] s[j]@)
}

impl AccountManager {
    /// The directory names that are account ids, sorted ascending: the
    /// selection that `list_ids` makes of the entries of the accounts
    /// directory.
    pub fn select_account_ids(names: &[String]) -> (r: Vec<String>)
        ensures
            r@.to_multiset() == keep_valid_ids(names@).to_multiset(),
            sorted_names(r@),
    {
        broadcast use vstd::seq_lib::group_to_multiset_ensures;

        let mut out: Vec<String> = Vec::new();
        let mut i: usize = 0;
        while i < names.len()
            invariant
                i <= names.len(),
                out@.to_multiset() == keep_valid_ids(names@.take(i as int)).to_multiset(),
                sorted_names(out@),
            decreases names.len() - i,
        {
            assert(names@.take(i as int + 1).drop_last() == names@.take(i as int));
            assert(names@.take(i as int + 1).last() == names@[i as int]);
            if !Self::is_valid_account_id(names[i].as_str()) {
                assert(keep_valid_ids(names@.take(i as int + 1)) == keep_valid_ids(
                    names@.take(i as int),
                ));
            } else {
                let name = names[i].clone();
                let nv = chars_of(name.as_str());
                let mut k: usize = 0;
                while k < out.len() && chars_lex_le(chars_of(out[k].as_str()).as_slice(), nv.as_slice())
                    invariant
                        k <= out.len(),
                        nv@ == name@,
                        forall|j: int| 0 <= j < k ==> lex_le(#[trigger] out@[j]@, name@),
                    decreases out.len() - k,
                {
                    k += 1;
                }
                proof {
                    if k < out.len() {
                        lemma_lex_le_total(out@[k as int]@, name@);
                        assert forall|j: int| k <= j < out.len() implies lex_le(
                            name@,
                            #[trigger] out@[j]@,
                        ) by {
                            if j > k {
                                lemma_lex_le_trans(name@, out@[k as int]@, out@[j]@);
                            }
                        }
                    }
                    vstd::seq_lib::to_multiset_insert(out@, k as int, name);
                }
                let ghost before = out@;
                let ghost kept = keep_valid_ids(names@.take(i as int));
                out.insert(k, name);
                proof {
                    assert(keep_valid_ids(names@.take(i as int + 1)) == kept.push(names@[i as int]));
                    assert(name == names@[i as int]);
                    assert(out@ == before.insert(k as int, name));
                    assert(out@.to_multiset() == before.to_multiset().insert(name));
                    vstd::seq_lib::to_multiset_build(kept, name);
                    before.insert_ensures(k as int, name);
                    assert forall|a: int, b: int| 0 <= a < b < out@.len() implies lex_le(
                        #[trigger] out@[a]@,
                        #[trigger] out@[b]@,
                    ) by {
                        if b < k {
                            assert(out@[a] == before[a]);
                            assert(out@[b] == before[b]);
                        } else if b == k {
                            assert(out@[a] == before[a]);
                        } else if a < k {
                            assert(out@[a] == before[a]);
                            assert(out@[b] == before[b - 1]);
                        } else if a == k {
                            assert(out@[b] == before[b - 1]);
                        } else {
                            assert(out@[a] == before[a - 1]);
                            assert(out@[b] == before[b - 1]);
                        }
                    }
                }
            }
            i += 1;
        }
        assert(names@.take(names.len() as int) == names@);
        out
    }
}


// ---------------------------------------------------------------------------
// Creating and updating accounts
// ---------------------------------------------------------------------------

/// The language an account gets when none is chosen, by region: `zhTW` for
/// `KR` and `Global`, `enUS` for `NA` and `EU`, `zhCN` otherwise.
pub open spec fn default_locale_spec(region: Option<String>) -> Seq<char> {
    match region {
        Some(r) => if r@ == "KR"@ || r@ == "Global"@ {
            "zhTW"@
        } else if r@ == "NA"@ || r@ == "EU"@ {
            "enUS"@
        } else {
            "zhCN"@
        },
        None => "zhCN"@,
    }
}

/// The default interface and voice language for a region.
pub fn default_locale(region: &Option<String>) -> (r: String)
    ensures
        r@ == default_locale_spec(*region),
{
    match region {
        Some(reg) => {
            if str_eq(reg.as_str(), "KR") || str_eq(reg.as_str(), "Global") {
                copy_string("zhTW")
            } else if str_eq(reg.as_str(), "NA") || str_eq(reg.as_str(), "EU") {
                copy_string("enUS")
            } else {
                copy_string("zhCN")
            }
        },
        None => copy_string("zhCN"),
    }
}

/// The option holds a string equal to `s`.
pub open spec fn opt_is(o: Option<String>, s: Seq<char>) -> bool {
    o matches Some(v) && v@ == s
}

/// The option holds the hexadecimal text of the protected token bytes, or is
/// empty when there are none.
pub open spec fn token_field_for(t: Option<String>, protected: Option<Vec<u8>>) -> bool {
    match protected {
        Some(b) => opt_is(t, hex_encode_spec(b@)),
        None => t is None,
    }
}

/// The chosen language, or the region's default when none was chosen.
pub open spec fn chosen_or_default(field: Option<String>, chosen: Option<String>, region: Option<String>) -> bool {
    match chosen {
        Some(l) => field == Some(l),
        None => opt_is(field, default_locale_spec(region)),
    }
}

/// Whether an optional mode is `token`.
pub fn is_token_mode(mode: &Option<String>) -> (b: bool)
    ensures
        b == opt_is(*mode, "token"@),
{
    match mode {
        Some(m) => str_eq(m.as_str(), "token"),
        None => false,
    }
}

/// The metadata of a newly created account: the nickname, mode and region
/// given; languages as chosen or the region's default; the protected token
/// as hexadecimal text; token accounts start out initialized.
pub fn new_account_meta(
    id: &str,
    nickname: String,
    auth_mode: Option<String>,
    region: Option<String>,
    protected_token: Option<Vec<u8>>,
    language: Option<String>,
    voicelanguage: Option<String>,
) -> (m: AccountMeta)
    ensures
        m.id@ == id@,
        m.display_name == nickname,
        m.auth_mode == auth_mode,
        m.region == region,
        chosen_or_default(m.language, language, region),
        chosen_or_default(m.voicelanguage, voicelanguage, region),
        token_field_for(m.token, protected_token),
        m.initialized == opt_is(auth_mode, "token"@),
        m.last_reset_at is Some,
        m.mod_args@.len() == 0,
        m.mod_list@.len() == 0,
        m.last_launched_at is None,
        m.order == 0,
        !m.is_running,
        m.running_pid is None,
        m.window_x is None,
        m.window_y is None,
        !m.has_customized_settings,
{
    let mut meta = AccountMeta::new(id);
    meta.display_name = nickname;
    let locale = default_locale(&region);
    meta.language = match language {
        Some(l) => Some(l),
        None => Some(copy_string(locale.as_str())),
    };
    meta.voicelanguage = match voicelanguage {
        Some(v) => Some(v),
        None => Some(locale),
    };
    meta.token = match protected_token {
        Some(b) => Some(hex_encode(b.as_slice())),
        None => None,
    };
    meta.initialized = is_token_mode(&auth_mode);
    meta.auth_mode = auth_mode;
    meta.region = region;
    meta.last_reset_at = Some(now_rfc3339());
    meta
}

/// All fields but the region, the languages and the token are the same.
pub open spec fn same_except_locale_and_token(a: AccountMeta, b: AccountMeta) -> bool {
    &&& a.id == b.id
    &&& a.display_name == b.display_name
    &&& a.mod_args == b.mod_args
    &&& a.mod_list == b.mod_list
    &&& a.created_at == b.created_at
    &&& a.last_launched_at == b.last_launched_at
    &&& a.initialized == b.initialized
    &&& a.last_reset_at == b.last_reset_at
    &&& a.order == b.order
    &&& a.is_running == b.is_running
    &&& a.running_pid == b.running_pid
    &&& a.window_x == b.window_x
    &&& a.window_y == b.window_y
    &&& a.auth_mode == b.auth_mode
    &&& a.has_customized_settings == b.has_customized_settings
}

impl AccountMeta {
    /// Applies an edit of token, region and languages.  A new region fills
    /// in a missing language with the region's default; a language given
    /// explicitly wins; a new token is stored as hexadecimal text.
    pub fn apply_meta_update(
        &mut self,
        protected_token: Option<Vec<u8>>,
        region: Option<String>,
        language: Option<String>,
        voicelanguage: Option<String>,
    )
        ensures
            same_except_locale_and_token(*final(self), *old(self)),
            final(self).region == (match region {
                Some(r) => Some(r),
                None => old(self).region,
            }),
            match language {
                Some(l) => final(self).language == Some(l),
                None => if region is Some && old(self).language is None {
                    opt_is(final(self).language, default_locale_spec(final(self).region))
                } else {
                    final(self).language == old(self).language
                },
            },
            match voicelanguage {
                Some(v) => final(self).voicelanguage == Some(v),
                None => if region is Some && old(self).voicelanguage is None {
                    opt_is(final(self).voicelanguage, default_locale_spec(final(self).region))
                } else {
                    final(self).voicelanguage == old(self).voicelanguage
                },
            },
            match protected_token {
                Some(b) => opt_is(final(self).token, hex_encode_spec(b@)),
                None => final(self).token == old(self).token,
            },
    {
        if let Some(r) = region {
            self.region = Some(r);
            let locale = default_locale(&self.region);
            if self.language.is_none() {
                self.language = Some(copy_string(locale.as_str()));
            }
            if self.voicelanguage.is_none() {
                self.voicelanguage = Some(locale);
            }
        }
        if let Some(l) = language {
            self.language = Some(l);
        }
        if let Some(v) = voicelanguage {
            self.voicelanguage = Some(v);
        }
        if let Some(b) = protected_token {
            self.token = Some(hex_encode(b.as_slice()));
        }
    }

    /// Compatibility with the single-mod format: an empty mod list takes
    /// the active mod arguments as its one entry when they are not blank.
    pub fn migrate_legacy_mods(&mut self)
        ensures
            *final(self) == (AccountMeta { mod_list: final(self).mod_list, ..*old(self) }),
            old(self).mod_list@.len() == 0 && trim_spec(old(self).mod_args@).len() > 0 ==> final(self).mod_list@ == seq![old(self).mod_args],
            !(old(self).mod_list@.len() == 0 && trim_spec(old(self).mod_args@).len() > 0) ==> final(self).mod_list == old(self).mod_list,
    {
        if self.mod_list.len() == 0 && !is_blank(self.mod_args.as_str()) {
            let m = self.mod_args.clone();
            self.mod_list.push(m);
        }
    }

    /// Takes over the mod arguments that the account's launcher config
    /// holds, for an initialized account whose config file exists: the
    /// config's value, or empty when the config holds none.
    pub fn sync_mod_args_from_config(&mut self, config_exists: bool, config_args: Option<String>)
        ensures
            *final(self) == (AccountMeta { mod_args: final(self).mod_args, ..*old(self) }),
            final(self).mod_args@ == (if old(self).initialized && config_exists {
                match config_args {
                    Some(a) => a@,
                    None => Seq::empty(),
                }
            } else {
                old(self).mod_args@
            }),
    {
        if self.initialized && config_exists {
            match config_args {
                Some(a) => {
                    self.mod_args = a;
                },
                None => {
                    if !self.mod_args.as_str().is_empty() {
                        self.mod_args = String::new();
                    }
                },
            }
        }
    }

    /// Records whether the account's game is running: it is when a pid is
    /// tracked for it and that process is named `D2R.exe` (any ASCII case).
    /// Returns whether the tracked pid is stale and should be forgotten.
    pub fn apply_running_state(&mut self, tracked_pid: Option<u32>, process_name: Option<&str>) -> (stale: bool)
        ensures
            ({
                let running = tracked_pid is Some && (process_name matches Some(n)
                    && eq_ignore_ascii_case_spec(n@, "D2R.exe"@));
                &&& final(self).is_running == running
                &&& final(self).running_pid == (if running {
                    tracked_pid
                } else {
                    None
                })
                &&& stale == (!running && tracked_pid is Some)
            }),
            *final(self) == (AccountMeta {
                is_running: final(self).is_running,
                running_pid: final(self).running_pid,
                ..*old(self)
            }),
    {
        let running = match (tracked_pid, process_name) {
            (Some(_), Some(n)) => eq_ignore_ascii_case(n, "D2R.exe"),
            _ => false,
        };
        self.is_running = running;
        self.running_pid = if running {
            tracked_pid
        } else {
            None
        };
        !running && tracked_pid.is_some()
    }
}

// ---------------------------------------------------------------------------
// Token age
// ---------------------------------------------------------------------------

/// The token lasts 720 hours (30 days) after the last reset.
pub open spec fn token_age_limit_hours() -> int {
    720
}

/// Whether a token this many whole hours old has expired.
pub fn token_age_exceeds_limit(elapsed_hours: i64) -> (r: bool)
    ensures
        r == (elapsed_hours > token_age_limit_hours()),
{
    elapsed_hours > 720
}

/// Whether the token reset at `last_reset_at` has expired.  An absent or
/// unparsable time never counts as expired; otherwise the whole hours since
/// then are compared with the limit.
pub fn is_token_expired(last_reset_at: &Option<String>) -> (r: bool)
    ensures
        r ==> (last_reset_at matches Some(ts) && rfc3339_parses(ts@)),
        last_reset_at is None ==> !r,
{
    match last_reset_at {
        Some(ts) => match hours_since_rfc3339(ts.as_str()) {
            Some(h) => token_age_exceeds_limit(h),
            None => false,
        },
        None => false,
    }
}

// ---------------------------------------------------------------------------
// Moving the game window
// ---------------------------------------------------------------------------

/// How to place an account's game window.
#[derive(Debug, Clone)]
pub enum WindowMove {
    /// No position is configured: leave the window.
    Leave,
    /// Move the window of this game process to `(x, y)`.
    ByPid(u32, i32, i32),
    /// Move the window with this exact title to `(x, y)`.
    ByTitle(String, i32, i32),
}

/// Plans the window move for an account: nothing when neither coordinate
/// is set; otherwise to the configured point (a missing coordinate is 0),
/// by pid when the game's pid is known, else by the window title, which is
/// the nickname or, without one, the id.
pub fn plan_window_move(meta: &AccountMeta, tracked_pid: Option<u32>) -> (r: WindowMove)
    ensures
        ({
            let x = match meta.window_x {
                Some(v) => v,
                None => 0,
            };
            let y = match meta.window_y {
                Some(v) => v,
                None => 0,
            };
            if meta.window_x is None && meta.window_y is None {
                r is Leave
            } else {
                match tracked_pid {
                    Some(pid) => r == WindowMove::ByPid(pid, x, y),
                    None => r matches WindowMove::ByTitle(t, rx, ry) && rx == x && ry == y && t@
                        == (if meta.display_name@.len() == 0 {
                        meta.id@
                    } else {
                        meta.display_name@
                    }),
                }
            }
        }),
{
    if meta.window_x.is_none() && meta.window_y.is_none() {
        return WindowMove::Leave;
    }
    let x = match meta.window_x {
        Some(v) => v,
        None => 0,
    };
    let y = match meta.window_y {
        Some(v) => v,
        None => 0,
    };
    match tracked_pid {
        Some(pid) => WindowMove::ByPid(pid, x, y),
        None => {
            let title = if meta.display_name.as_str().is_empty() {
                copy_string(meta.id.as_str())
            } else {
                copy_string(meta.display_name.as_str())
            };
            WindowMove::ByTitle(title, x, y)
        },
    }
}

// ---------------------------------------------------------------------------
// Registry backups
// ---------------------------------------------------------------------------

/// One value of the client's login key, as saved with an account.
#[derive(Debug, Clone)]
pub struct RegistryValueBackup {
    pub name: String,
    /// The registry value type code.
    pub value_type: u32,
    pub value_bytes: Vec<u8>,
}

/// The type a saved value is written back with: the string, expandable
/// string, binary, 32-bit (either byte order) and multi-string types keep
/// their code; any other code is written as binary (3).
pub fn restore_value_type(value_type: u32) -> (r: u32)
    ensures
        r == (if value_type == 1 || value_type == 2 || value_type == 3 || value_type == 4
            || value_type == 5 || value_type == 7 {
            value_type
        } else {
            3
        }),
{
    if value_type == 1 || value_type == 2 || value_type == 3 || value_type == 4 || value_type == 5
        || value_type == 7 {
        value_type
    } else {
        3
    }
}

/// A login key exported with no value means the client was not logged in:
/// such a backup must not replace the account's saved login.
pub fn check_registry_backup(value_count: usize) -> (r: Result<(), AppError>)
    ensures
        value_count > 0 ==> r is Ok,
        value_count == 0 ==> (r matches Err(AppError::RegistryError(m)) && m@
            == "导出注册表为空——战网可能未登录或认证数据已丢失"@),
{
    if value_count == 0 {
        return Err(AppError::RegistryError(copy_string("导出注册表为空——战网可能未登录或认证数据已丢失")));
    }
    Ok(())
}

/// The error reported when the login key of a re-initialized account could
/// not be exported.
pub fn snapshot_export_error(err: AppError) -> (r: AppError)
    ensures
        r matches AppError::RegistryError(m) && m@ == "导出注册表快照失败: "@ + error_text(err),
{
    let mut m = copy_string("导出注册表快照失败: ");
    let t = chars_of(err.message().as_str());
    crate::text::push_all(&mut m, t.as_slice());
    AppError::RegistryError(m)
}

// ---------------------------------------------------------------------------
// Initializing accounts
// ---------------------------------------------------------------------------

impl AccountManager {
    /// Checks a list of ids before anything is done with them: the error of
    /// the first invalid id, if any.
    pub fn validate_all_ids(ids: &[String]) -> (r: Result<(), AppError>)
        ensures
            (forall|i: int| 0 <= i < ids@.len() ==> valid_account_id(#[trigger] ids@[i]@)) ==> r is Ok,
            forall|i: int|
                0 <= i < ids@.len() && !valid_account_id(#[trigger] ids@[i]@) && (forall|j: int|
                    0 <= j < i ==> valid_account_id(ids@[j]@)) ==> fails_with_file_error(
                    r,
                    "账号 ID 非法: "@ + ids@[i]@,
                ),
    {
        let mut i: usize = 0;
        while i < ids.len()
            invariant
                i <= ids.len(),
                forall|j: int| 0 <= j < i ==> valid_account_id(#[trigger] ids@[j]@),
            decreases ids.len() - i,
        {
            let r = Self::validate_account_id(ids[i].as_str());
            if r.is_err() {
                proof {
                    assert forall|k: int|
                        0 <= k < ids@.len() && !valid_account_id(#[trigger] ids@[k]@) && (forall|j: int|
                            0 <= j < k ==> valid_account_id(ids@[j]@)) implies k == i by {
                        if k < i {
                        } else if k > i {
                            assert(valid_account_id(ids@[i as int]@));
                        }
                    }
                }
                return r;
            }
            i += 1;
        }
        Ok(())
    }
}

/// What an initialization does with the mod arguments found in the
/// account's launcher config.
#[derive(Debug, Clone, Copy, PartialEq, Eq, Structural)]
pub enum ModSync {
    /// The account had none: it takes those of the config.
    Adopted,
    /// The account has its own: they are written into the config.
    Inject,
    /// Nothing to do.
    Nothing,
}

impl AccountMeta {
    /// Marks the account as initialized at time `now`.
    pub fn mark_initialized(&mut self, now: String)
        ensures
            *final(self) == (AccountMeta { initialized: true, last_reset_at: Some(now), ..*old(self) }),
    {
        self.initialized = true;
        self.last_reset_at = Some(now);
    }

    /// After a snapshot, where the launcher config exists: an account
    /// without mod arguments takes those of the config (when it has any);
    /// an account with its own has them written into the config.
    pub fn sync_snapshot_mods(&mut self, config_args: Option<String>) -> (r: ModSync)
        ensures
            old(self).mod_args@.len() == 0 ==> match config_args {
                Some(a) => r is Adopted && *final(self) == (AccountMeta { mod_args: a, ..*old(self) }),
                None => r is Nothing && *final(self) == *old(self),
            },
            old(self).mod_args@.len() > 0 ==> r is Inject && *final(self) == *old(self),
    {
        if self.mod_args.as_str().is_empty() {
            match config_args {
                Some(a) => {
                    self.mod_args = a;
                    ModSync::Adopted
                },
                None => ModSync::Nothing,
            }
        } else {
            ModSync::Inject
        }
    }
}

/// One second of waiting for the login during a re-initialization.
#[derive(Debug, Clone, Copy, PartialEq, Eq, Structural)]
pub enum ReinitWait {
    /// The user cancelled.
    Cancelled,
    /// The client has logged in.
    LoggedIn,
    /// Still waiting; report progress now.
    Report,
    /// Still waiting.
    Keep,
}

/// The step after `second` seconds: a cancel wins, then a login; progress
/// is reported every fifth second.
pub fn reinit_wait_step(second: u32, cancelled: bool, logged_in: bool) -> (r: ReinitWait)
    ensures
        cancelled ==> r is Cancelled,
        !cancelled && logged_in ==> r is LoggedIn,
        !cancelled && !logged_in && second % 5 == 0 ==> r is Report,
        !cancelled && !logged_in && second % 5 != 0 ==> r is Keep,
{
    if cancelled {
        ReinitWait::Cancelled
    } else if logged_in {
        ReinitWait::LoggedIn
    } else if second % 5 == 0 {
        ReinitWait::Report
    } else {
        ReinitWait::Keep
    }
}

/// A re-initialization opens the login browser only when a browser is
/// configured, both its path and its type.
pub fn opens_login_browser(browser_path: &str, browser_type: &str) -> (r: bool)
    ensures
        r == (browser_path@.len() > 0 && browser_type@.len() > 0),
{
    !browser_path.is_empty() && !browser_type.is_empty()
}

// ---------------------------------------------------------------------------
// Game settings files
// ---------------------------------------------------------------------------

/// The settings page of an account shows the system's game settings when
/// the account's metadata could be read (`customized` is `Some`), it has no
/// settings of its own, and the system file holds any entry; otherwise the
/// account's own file.
pub fn shows_system_settings(customized: Option<bool>, system_entries: usize) -> (r: bool)
    ensures
        r == (customized == Some(false) && system_entries > 0),
{
    match customized {
        Some(c) => !c && system_entries > 0,
        None => false,
    }
}

fn text_with(prefix: &str, middle: &str, suffix: &str) -> (r: String)
    ensures
        r@ == prefix@ + middle@ + suffix@,
{
    let mut m = copy_string(prefix);
    let a = chars_of(middle);
    crate::text::push_all(&mut m, a.as_slice());
    let b = chars_of(suffix);
    crate::text::push_all(&mut m, b.as_slice());
    m
}

/// Before an account's game settings replace the system's: the account
/// must have its own settings file and the saved-games folder must exist;
/// the errors name the paths as shown.
pub fn check_settings_copy(
    account_file_exists: bool,
    account_file_shown: &str,
    saved_games_is_dir: bool,
    saved_games_shown: &str,
) -> (r: Result<(), AppError>)
    ensures
        !account_file_exists ==> fails_with_file_error(
            r,
            "账号 Settings.json 不存在: "@ + account_file_shown@ + "。请先在画质配置中从系统配置创建账号独立配置"@,
        ),
        account_file_exists && !saved_games_is_dir ==> fails_with_file_error(
            r,
            "存档目录无效: "@ + saved_games_shown@ + "。请在设置中修正存档目录"@,
        ),
        account_file_exists && saved_games_is_dir ==> r is Ok,
{
    if !account_file_exists {
        return Err(
            AppError::FileError(
                text_with("账号 Settings.json 不存在: ", account_file_shown, "。请先在画质配置中从系统配置创建账号独立配置"),
            ),
        );
    }
    if !saved_games_is_dir {
        return Err(AppError::FileError(text_with("存档目录无效: ", saved_games_shown, "。请在设置中修正存档目录")));
    }
    Ok(())
}

/// Before the system's game settings are copied to an account: the system
/// file must exist.
pub fn check_system_settings(exists: bool, shown: &str) -> (r: Result<(), AppError>)
    ensures
        exists ==> r is Ok,
        !exists ==> fails_with_file_error(r, "系统 Settings.json 不存在: "@ + shown@),
{
    if !exists {
        let mut m = copy_string("系统 Settings.json 不存在: ");
        let a = chars_of(shown);
        crate::text::push_all(&mut m, a.as_slice());
        return Err(AppError::FileError(m));
    }
    Ok(())
}

} // verus!
