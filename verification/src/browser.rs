//! Opening an account's own browser profile: which browser and profile, the
//! checks on the browser path and on the login page, and the arguments the
//! browser is started with.
use vstd::prelude::*;
use crate::account::{valid_account_id, AccountManager};
use crate::config::GlobalConfig;
use crate::error::{fails_with_file_error, AppError};
use crate::text::{
    chars_of, chars_start_with, contains_spec, copy_string, eq_ignore_ascii_case,
    eq_ignore_ascii_case_spec, is_blank, lowercase, push_all, starts_with_spec, str_contains,
    str_eq, to_lowercase, trim_spec,
};
use crate::utils::{sanitize_folder_name, sanitize_folder_name_spec};

verus! {

/// The browser path given matches the configured one: neither is blank,
/// and they are the same file when both could be resolved
/// (`canonical_equal` holds the comparison of the resolved paths), or else
/// the same text up to ASCII case.
pub open spec fn paths_match_spec(config_path: Seq<char>, requested_path: Seq<char>, canonical_equal: Option<bool>) -> bool {
    if trim_spec(config_path).len() == 0 || trim_spec(requested_path).len() == 0 {
        false
    } else {
        match canonical_equal {
            Some(same) => same,
            None => eq_ignore_ascii_case_spec(config_path, requested_path),
        }
    }
}

/// Whether the browser path given matches the configured one (see
/// `paths_match_spec`).
pub fn paths_match_config(config_path: &str, requested_path: &str, canonical_equal: Option<bool>) -> (r: bool)
    ensures
        r == paths_match_spec(config_path@, requested_path@, canonical_equal),
{
    if is_blank(config_path) || is_blank(requested_path) {
        return false;
    }
    match canonical_equal {
        Some(same) => same,
        None => eq_ignore_ascii_case(config_path, requested_path),
    }
}

/// Only the configured browser may be started.
pub fn ensure_browser_path_allowed(config: &GlobalConfig, browser_path: &str, canonical_equal: Option<bool>) -> (r: Result<(), AppError>)
    ensures
        paths_match_spec(config.browser_path@, browser_path@, canonical_equal) ==> r is Ok,
        !paths_match_spec(config.browser_path@, browser_path@, canonical_equal) ==> fails_with_file_error(
            r,
            "浏览器路径必须使用已保存的全局配置"@,
        ),
{
    if !paths_match_config(config.browser_path.as_str(), browser_path, canonical_equal) {
        return Err(AppError::FileError(copy_string("浏览器路径必须使用已保存的全局配置")));
    }
    Ok(())
}

/// The Battle.net login pages the browser may be sent to: in lower case,
/// the address starts with the login path of one of the Korean, American,
/// European or Chinese sites, and asks for the external login challenge of
/// the game (`externalchallenge=login` and `app=osi`).
pub open spec fn is_allowed_login_url(url: Seq<char>) -> bool {
    let lower = lowercase(url);
    &&& (starts_with_spec(lower, "https://kr.battle.net/login/"@) || starts_with_spec(
        lower,
        "https://us.battle.net/login/"@,
    ) || starts_with_spec(lower, "https://eu.battle.net/login/"@) || starts_with_spec(
        lower,
        "https://account.battlenet.com.cn/login/"@,
    ))
    &&& contains_spec(lower, "externalchallenge=login"@)
    &&& contains_spec(lower, "app=osi"@)
}

/// Refuses any address but a Battle.net token login page (see
/// `is_allowed_login_url`).
pub fn ensure_allowed_bnet_login_url(url: &str) -> (r: Result<(), AppError>)
    ensures
        is_allowed_login_url(url@) ==> r is Ok,
        !is_allowed_login_url(url@) ==> fails_with_file_error(r, "仅允许打开 Battle.net Token 登录页面"@),
{
    let lower = to_lowercase(url);
    let lc = chars_of(lower.as_str());
    let allowed_host = chars_start_with(lc.as_slice(), chars_of("https://kr.battle.net/login/").as_slice())
        || chars_start_with(lc.as_slice(), chars_of("https://us.battle.net/login/").as_slice())
        || chars_start_with(lc.as_slice(), chars_of("https://eu.battle.net/login/").as_slice())
        || chars_start_with(
        lc.as_slice(),
        chars_of("https://account.battlenet.com.cn/login/").as_slice(),
    );
    let expected_query = str_contains(lower.as_str(), "externalchallenge=login") && str_contains(
        lower.as_str(),
        "app=osi",
    );
    if allowed_host && expected_query {
        Ok(())
    } else {
        Err(AppError::FileError(copy_string("仅允许打开 Battle.net Token 登录页面")))
    }
}

/// The browser in use: the configured type, or when none is configured,
/// `edge` for a path that names `msedge` (in lower case) and `chrome`
/// otherwise.
pub open spec fn browser_kind_spec(browser_type: Seq<char>, browser_path: Seq<char>) -> Seq<char> {
    if browser_type.len() == 0 {
        if contains_spec(lowercase(browser_path), "msedge"@) {
            "edge"@
        } else {
            "chrome"@
        }
    } else {
        browser_type
    }
}

/// The browser in use (see `browser_kind_spec`).
pub fn browser_kind(browser_type: &str, browser_path: &str) -> (r: String)
    ensures
        r@ == browser_kind_spec(browser_type@, browser_path@),
{
    if browser_type.is_empty() {
        let lower = to_lowercase(browser_path);
        if str_contains(lower.as_str(), "msedge") {
            copy_string("edge")
        } else {
            copy_string("chrome")
        }
    } else {
        copy_string(browser_type)
    }
}

/// Where an account's browser profile lives.
#[derive(Debug, Clone, Copy, PartialEq, Eq, Structural)]
pub enum ProfileHome {
    /// In the user's Edge data (`Microsoft/Edge/User Data` under the local data folder).
    Edge,
    /// In the user's Chrome data (`Google/Chrome/User Data` under the local data folder).
    Chrome,
    /// In the account's directory (`BrowserProfile`), when there is no local data folder.
    AccountDir,
}

/// How an account's browser is opened.
#[derive(Debug, Clone)]
pub struct BrowserPlan {
    pub home: ProfileHome,
    /// The profile directory.
    pub profile_name: String,
    /// The name the profile is shown with, and written into its preferences
    /// unless the profile is the default one.
    pub display_name: String,
    pub rename_profile: bool,
}

/// Plans the opening of an account's browser: the id must be valid; the
/// profile is named after the account's nickname (`display_name`, when
/// its metadata could be read, else the id), made safe as a folder name;
/// without a local data folder the account's own `Default` profile is used.
pub fn plan_browser_profile(
    account_id: &str,
    kind: &str,
    display_name: Option<String>,
    has_local_dir: bool,
) -> (r: Result<BrowserPlan, AppError>)
    ensures
        !valid_account_id(account_id@) ==> fails_with_file_error(r, "账号 ID 非法: "@ + account_id@),
        valid_account_id(account_id@) ==> (r matches Ok(p) && {
            let shown = match display_name {
                Some(d) => d@,
                None => account_id@,
            };
            &&& p.display_name@ == shown
            &&& if has_local_dir {
                &&& p.profile_name@ == sanitize_folder_name_spec(shown)
                &&& (if kind@ == "edge"@ {
                    p.home is Edge
                } else {
                    p.home is Chrome
                })
            } else {
                p.profile_name@ == "Default"@ && p.home is AccountDir
            }
            &&& p.rename_profile == (p.profile_name@ != "Default"@)
        }),
{
    AccountManager::validate_account_id(account_id)?;
    let shown = match display_name {
        Some(d) => d,
        None => copy_string(account_id),
    };
    let (home, profile_name) = if has_local_dir {
        let name = sanitize_folder_name(shown.as_str());
        if str_eq(kind, "edge") {
            (ProfileHome::Edge, name)
        } else {
            (ProfileHome::Chrome, name)
        }
    } else {
        (ProfileHome::AccountDir, copy_string("Default"))
    };
    let rename_profile = !str_eq(profile_name.as_str(), "Default");
    Ok(BrowserPlan { home, profile_name, display_name: shown, rename_profile })
}

fn prefixed(prefix: &str, tail: &str) -> (r: String)
    ensures
        r@ == prefix@ + tail@,
{
    let mut s = copy_string(prefix);
    let t = chars_of(tail);
    push_all(&mut s, t.as_slice());
    s
}

/// The arguments the browser is started with: its data directory and
/// profile, no first-run or default-browser prompts, then the page to open
/// if any.
pub fn browser_args(user_data_dir: &str, profile_name: &str, url: Option<&str>) -> (r: Vec<String>)
    ensures
        r@.len() == (if url is Some {
            5int
        } else {
            4int
        }),
        r@[0]@ == "--user-data-dir="@ + user_data_dir@,
        r@[1]@ == "--profile-directory="@ + profile_name@,
        r@[2]@ == "--no-first-run"@,
        r@[3]@ == "--no-default-browser-check"@,
        url matches Some(u) ==> r@[4]@ == u@,
{
    let mut args: Vec<String> = Vec::new();
    args.push(prefixed("--user-data-dir=", user_data_dir));
    args.push(prefixed("--profile-directory=", profile_name));
    args.push(copy_string("--no-first-run"));
    args.push(copy_string("--no-default-browser-check"));
    if let Some(u) = url {
        args.push(copy_string(u));
    }
    args
}

} // verus!
