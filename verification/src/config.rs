//! The launcher's global configuration: its defaults, the checks made before
//! it is saved, the migrations made when it is loaded, and the keyboard
//! shortcuts it binds to account positions.
use vstd::prelude::*;
use crate::account::AccountMeta;
use crate::error::{is_config_write_error, AppError};
use crate::text::{
    chars_of, chars_start_with, chars_contain, copy_string, is_blank, lowercase, parse_decimal,
    parse_bounded_spec, push_all, push_char, starts_with_spec, contains_spec, str_eq, to_lowercase,
    trim, trim_spec,
};

verus! {

/// The global configuration.
///
/// The two fractional settings are kept as the bit patterns of their IEEE
/// values (`f32` for the mascot's scale, `f64` for the agent delay in
/// seconds), so that they travel unchanged.
#[derive(Debug, Clone)]
pub struct GlobalConfig {
    pub version: u32,
    pub battle_net_path: String,
    pub game_path: String,
    pub saved_games_path: String,
    pub program_data_agent_path: String,
    pub app_data_roaming_bnet_path: String,
    pub accounts_dir: String,
    pub first_run_complete: bool,
    /// Path of the browser executable (Edge or Chrome).
    pub browser_path: String,
    /// `"edge"`, `"chrome"`, or empty when not configured.
    pub browser_type: String,
    pub enable_bongo_cat: bool,
    pub bongo_cat_chatterbox: bool,
    pub bongo_cat_scale_bits: u32,
    pub bongo_cat_skin: String,
    pub bongo_cat_unlocked_skins: Vec<String>,
    /// Show the overlay while minimized.
    pub enable_overlay: bool,
    /// `"onyx"` or `"light"`.
    pub theme: String,
    /// Theme of the overlay window.
    pub theme_overlay: String,
    pub auto_close_browser: bool,
    pub enable_auto_update: bool,
    /// The help pages open on the first start.
    pub first_launch: bool,
    pub ocr_enabled: bool,
    /// Id of the account whose game the text recognition watches.
    pub ocr_target_account: String,
    pub ocr_ch_b_profiles_json: String,
    pub ocr_debug_output: bool,
    /// Polling interval of the text recognition, in milliseconds.
    pub ocr_poll_interval_ms: u64,
    /// Shortcut bindings as JSON, from account position (1-based) to key combination.
    pub shortcut_bindings_json: String,
    pub overlay_opacity: u8,
    pub main_opacity: u8,
    /// `"small"`, `"default"` or `"large"`.
    pub font_scale: String,
    /// `"zh-CN"` or `"en-US"`.
    pub app_language: String,
    /// 1: kill the agent after a delay; 2: at a process count; 3: leave it.
    pub agent_mode: u8,
    pub agent_delay_secs_bits: u64,
    /// Client process count at which mode 2 kills the agent.
    pub agent_threshold: u32,
    /// `"full_clear"`, `"single_scene"` or `"start_middle_end"`.
    pub ocr_timing_mode: String,
    pub ocr_phase_config_json: String,
    pub ocr_auto_pause_on_switch: bool,
}

/// The shortcut bindings a new configuration starts with.
pub open spec fn default_shortcuts() -> Seq<char> {
    "{\"1\":\"Ctrl+1\",\"2\":\"Ctrl+2\",\"3\":\"Ctrl+3\"}"@
}

/// Default interface font scale.
pub fn default_font_scale() -> (r: String)
    ensures
        r@ == "default"@,
{
    copy_string("default")
}

/// Default interface language.
pub fn default_app_language() -> (r: String)
    ensures
        r@ == "zh-CN"@,
{
    copy_string("zh-CN")
}

/// Default window opacity, in percent.
pub fn default_opacity() -> (r: u8)
    ensures
        r == 95,
{
    95
}

/// Default polling interval of the text recognition, in milliseconds.
pub fn default_ocr_poll_interval() -> (r: u64)
    ensures
        r == 500,
{
    500
}

/// Default agent mode: kill the agent after a delay.
pub fn default_agent_mode() -> (r: u8)
    ensures
        r == 1,
{
    1
}

/// Default agent delay, one second, as the bits of an `f64`.
pub fn default_agent_delay_secs_bits() -> (r: u64)
    ensures
        r == 0x3FF0_0000_0000_0000u64,
{
    0x3FF0_0000_0000_0000u64
}

/// Default client process count for agent mode 2.
pub fn default_agent_threshold() -> (r: u32)
    ensures
        r == 5,
{
    5
}

/// Default timing mode of the text recognition.
pub fn default_ocr_timing_mode() -> (r: String)
    ensures
        r@ == "full_clear"@,
{
    copy_string("full_clear")
}

/// Default phase markers of the text recognition: none.
pub fn default_ocr_phase_config_json() -> (r: String)
    ensures
        r@ == "{}"@,
{
    copy_string("{}")
}

/// Default theme.
pub fn default_theme() -> (r: String)
    ensures
        r@ == "light"@,
{
    copy_string("light")
}

/// The overlay is shown by default.
pub fn default_enable_overlay() -> (r: bool)
    ensures
        r,
{
    true
}

/// The browser is closed after login by default.
pub fn default_auto_close_browser() -> (r: bool)
    ensures
        r,
{
    true
}

/// Updates are checked by default.
pub fn default_enable_auto_update() -> (r: bool)
    ensures
        r,
{
    true
}

/// A configuration starts on its first launch.
pub fn default_first_launch() -> (r: bool)
    ensures
        r,
{
    true
}

/// The mascot is shown by default.
pub fn default_enable_bongo_cat() -> (r: bool)
    ensures
        r,
{
    true
}

/// The mascot talks by default.
pub fn default_bongo_cat_chatterbox() -> (r: bool)
    ensures
        r,
{
    true
}

/// Default scale of the mascot, 1.0, as the bits of an `f32`.
pub fn default_bongo_cat_scale_bits() -> (r: u32)
    ensures
        r == 0x3F80_0000u32,
{
    0x3F80_0000u32
}

/// Default skin of the mascot.
pub fn default_bongo_cat_skin() -> (r: String)
    ensures
        r@ == "original"@,
{
    copy_string("original")
}

/// The skins unlocked at first: the original one.
pub fn default_bongo_cat_unlocked_skins() -> (r: Vec<String>)
    ensures
        r@.len() == 1,
        r@[0]@ == "original"@,
{
    let mut v: Vec<String> = Vec::new();
    v.push(copy_string("original"));
    v
}

/// The configuration of a first start: every path empty, the defaults above
/// for every setting, text recognition off.
pub open spec fn is_default_config(c: GlobalConfig) -> bool {
    &&& c.version == 1
    &&& c.battle_net_path@.len() == 0
    &&& c.game_path@.len() == 0
    &&& c.saved_games_path@.len() == 0
    &&& c.program_data_agent_path@.len() == 0
    &&& c.app_data_roaming_bnet_path@.len() == 0
    &&& c.accounts_dir@.len() == 0
    &&& !c.first_run_complete
    &&& c.browser_path@.len() == 0
    &&& c.browser_type@.len() == 0
    &&& c.enable_bongo_cat
    &&& c.bongo_cat_chatterbox
    &&& c.bongo_cat_scale_bits == 0x3F80_0000u32
    &&& c.bongo_cat_skin@ == "original"@
    &&& c.bongo_cat_unlocked_skins@.len() == 1
    &&& c.bongo_cat_unlocked_skins@[0]@ == "original"@
    &&& c.enable_overlay
    &&& c.theme@ == "light"@
    &&& c.theme_overlay@ == "light"@
    &&& c.auto_close_browser
    &&& c.enable_auto_update
    &&& c.first_launch
    &&& !c.ocr_enabled
    &&& c.ocr_target_account@.len() == 0
    &&& c.ocr_ch_b_profiles_json@.len() == 0
    &&& !c.ocr_debug_output
    &&& c.ocr_poll_interval_ms == 500
    &&& c.shortcut_bindings_json@ == default_shortcuts()
    &&& c.overlay_opacity == 95
    &&& c.main_opacity == 95
    &&& c.font_scale@ == "default"@
    &&& c.app_language@ == "zh-CN"@
    &&& c.agent_mode == 1
    &&& c.agent_delay_secs_bits == 0x3FF0_0000_0000_0000u64
    &&& c.agent_threshold == 5
    &&& c.ocr_timing_mode@ == "full_clear"@
    &&& c.ocr_phase_config_json@ == "{}"@
    &&& !c.ocr_auto_pause_on_switch
}

impl Default for GlobalConfig {
    /// The configuration of a first start (see `is_default_config`).
    fn default() -> (r: Self)
        ensures
            is_default_config(r),
    {
        GlobalConfig {
            version: 1,
            battle_net_path: String::new(),
            game_path: String::new(),
            saved_games_path: String::new(),
            program_data_agent_path: String::new(),
            app_data_roaming_bnet_path: String::new(),
            accounts_dir: String::new(),
            first_run_complete: false,
            browser_path: String::new(),
            browser_type: String::new(),
            enable_bongo_cat: default_enable_bongo_cat(),
            bongo_cat_chatterbox: default_bongo_cat_chatterbox(),
            bongo_cat_scale_bits: default_bongo_cat_scale_bits(),
            bongo_cat_skin: default_bongo_cat_skin(),
            bongo_cat_unlocked_skins: default_bongo_cat_unlocked_skins(),
            enable_overlay: default_enable_overlay(),
            theme: default_theme(),
            theme_overlay: default_theme(),
            auto_close_browser: default_auto_close_browser(),
            enable_auto_update: default_enable_auto_update(),
            first_launch: default_first_launch(),
            ocr_enabled: false,
            ocr_target_account: String::new(),
            ocr_ch_b_profiles_json: String::new(),
            ocr_debug_output: false,
            ocr_poll_interval_ms: default_ocr_poll_interval(),
            shortcut_bindings_json: copy_string("{\"1\":\"Ctrl+1\",\"2\":\"Ctrl+2\",\"3\":\"Ctrl+3\"}"),
            overlay_opacity: default_opacity(),
            main_opacity: default_opacity(),
            font_scale: default_font_scale(),
            app_language: default_app_language(),
            agent_mode: default_agent_mode(),
            agent_delay_secs_bits: default_agent_delay_secs_bits(),
            agent_threshold: default_agent_threshold(),
            ocr_timing_mode: default_ocr_timing_mode(),
            ocr_phase_config_json: default_ocr_phase_config_json(),
            ocr_auto_pause_on_switch: false,
        }
    }
}

/// Position and size of a window, kept between runs.
#[derive(Debug, Clone, Copy, PartialEq, Eq, Structural)]
pub struct WindowGeometry {
    pub x: i32,
    pub y: i32,
    pub width: u32,
    pub height: u32,
}

// ---------------------------------------------------------------------------
// Checks before saving
// ---------------------------------------------------------------------------

/// What the file system says about the configured paths.
#[derive(Debug, Clone, Copy)]
pub struct PathChecks {
    /// The client path is a file.
    pub battle_net_is_file: bool,
    /// Its file name is `Battle.net.exe`, in any case.
    pub battle_net_named: bool,
    /// The game path is a directory.
    pub game_is_dir: bool,
    /// The browser path is a file.
    pub browser_is_file: bool,
    /// Its file name is `chrome.exe`, in any case.
    pub browser_named_chrome: bool,
    /// Its file name is `msedge.exe`, in any case.
    pub browser_named_edge: bool,
}

/// The result of checking the configured paths, given what the file system
/// says of them: the client must be `Battle.net.exe`, the game path a
/// directory, and a configured browser a file whose name fits its type.
/// The saved games path is not checked.
pub open spec fn path_check_outcome(c: GlobalConfig, k: PathChecks, r: Result<(), AppError>) -> bool {
    if !k.battle_net_is_file || !k.battle_net_named {
        r matches Err(AppError::InvalidBnetPath(p)) && p@ == c.battle_net_path@
    } else if !k.game_is_dir {
        r matches Err(AppError::InvalidGamePath(p)) && p@ == c.game_path@
    } else if trim_spec(c.browser_path@).len() == 0 {
        r is Ok
    } else if !k.browser_is_file {
        r matches Err(e) && is_config_write_error(e, "浏览器路径无效: "@ + c.browser_path@)
    } else if c.browser_type@ == "chrome"@ && !k.browser_named_chrome {
        r matches Err(e) && is_config_write_error(
            e,
            "浏览器类型为 chrome，但路径不是 chrome.exe: "@ + c.browser_path@,
        )
    } else if c.browser_type@ == "edge"@ && !k.browser_named_edge {
        r matches Err(e) && is_config_write_error(
            e,
            "浏览器类型为 edge，但路径不是 msedge.exe: "@ + c.browser_path@,
        )
    } else {
        r is Ok
    }
}

fn message_with(prefix: &str, tail: &str) -> (r: String)
    ensures
        r@ == prefix@ + tail@,
{
    let mut m = copy_string(prefix);
    let t = chars_of(tail);
    push_all(&mut m, t.as_slice());
    m
}

/// Checks the configured paths before a completed configuration is saved
/// (see `path_check_outcome`).
pub fn validate_config_paths(config: &GlobalConfig, checks: &PathChecks) -> (r: Result<(), AppError>)
    ensures
        path_check_outcome(*config, *checks, r),
{
    if !checks.battle_net_is_file || !checks.battle_net_named {
        return Err(AppError::InvalidBnetPath(copy_string(config.battle_net_path.as_str())));
    }
    if !checks.game_is_dir {
        return Err(AppError::InvalidGamePath(copy_string(config.game_path.as_str())));
    }
    if !is_blank(config.browser_path.as_str()) {
        if !checks.browser_is_file {
            return Err(
                AppError::ConfigWriteError(message_with("浏览器路径无效: ", config.browser_path.as_str())),
            );
        }
        if str_eq(config.browser_type.as_str(), "chrome") && !checks.browser_named_chrome {
            return Err(
                AppError::ConfigWriteError(
                    message_with(
                        "浏览器类型为 chrome，但路径不是 chrome.exe: ",
                        config.browser_path.as_str(),
                    ),
                ),
            );
        }
        if str_eq(config.browser_type.as_str(), "edge") && !checks.browser_named_edge {
            return Err(
                AppError::ConfigWriteError(
                    message_with(
                        "浏览器类型为 edge，但路径不是 msedge.exe: ",
                        config.browser_path.as_str(),
                    ),
                ),
            );
        }
    }
    Ok(())
}

// ---------------------------------------------------------------------------
// The account watched by the text recognition
// ---------------------------------------------------------------------------

impl GlobalConfig {
    /// The account that the text recognition watches: none while it is off;
    /// the trimmed target id while it is on; an error when it is on with no
    /// target chosen.
    pub fn ocr_target_account_id(&self) -> (r: Result<Option<String>, AppError>)
        ensures
            !self.ocr_enabled ==> r matches Ok(None),
            self.ocr_enabled && trim_spec(self.ocr_target_account@).len() == 0 ==> (r matches Err(e)
                && is_config_write_error(e, "启用 OCR 前请先选择目标账号"@)),
            self.ocr_enabled && trim_spec(self.ocr_target_account@).len() > 0 ==> (r matches Ok(
                Some(id),
            ) && id@ == trim_spec(self.ocr_target_account@)),
    {
        if !self.ocr_enabled {
            return Ok(None);
        }
        let id = trim(self.ocr_target_account.as_str());
        if id.as_str().is_empty() {
            return Err(AppError::ConfigWriteError(copy_string("启用 OCR 前请先选择目标账号")));
        }
        Ok(Some(id))
    }

    /// Turns the text recognition off when it is on but its target is not
    /// valid (`target_ok` false), as older configurations may have it;
    /// says whether it did.  Nothing else changes.
    pub fn normalize_ocr_configuration(&mut self, target_ok: bool) -> (changed: bool)
        ensures
            changed == (old(self).ocr_enabled && !target_ok),
            *final(self) == (GlobalConfig { ocr_enabled: old(self).ocr_enabled && target_ok, ..*old(self) }),
    {
        if !self.ocr_enabled || target_ok {
            return false;
        }
        self.ocr_enabled = false;
        true
    }

    /// Sets the theme of the window that asked: the overlay window (label
    /// `overlay`) has a theme of its own.
    pub fn set_theme(&mut self, window_label: &str, theme: String)
        ensures
            window_label@ == "overlay"@ ==> *final(self) == (GlobalConfig {
                theme_overlay: theme,
                ..*old(self)
            }),
            window_label@ != "overlay"@ ==> *final(self) == (GlobalConfig { theme: theme, ..*old(self) }),
    {
        if str_eq(window_label, "overlay") {
            self.theme_overlay = theme;
        } else {
            self.theme = theme;
        }
    }

    /// The migrations made to a configuration read from disk: the accounts
    /// directory becomes the one of this installation, and an empty set of
    /// shortcut bindings becomes the default one.  Says whether anything
    /// changed.
    pub fn apply_load_migrations(&mut self, accounts_dir: &str) -> (changed: bool)
        ensures
            final(self).accounts_dir@ == accounts_dir@,
            final(self).shortcut_bindings_json@ == (if old(self).shortcut_bindings_json@.len() == 0 {
                default_shortcuts()
            } else {
                old(self).shortcut_bindings_json@
            }),
            *final(self) == (GlobalConfig {
                accounts_dir: final(self).accounts_dir,
                shortcut_bindings_json: final(self).shortcut_bindings_json,
                ..*old(self)
            }),
            changed == (old(self).accounts_dir@ != accounts_dir@
                || old(self).shortcut_bindings_json@.len() == 0),
    {
        let mut changed = false;
        if !str_eq(self.accounts_dir.as_str(), accounts_dir) {
            self.accounts_dir = copy_string(accounts_dir);
            changed = true;
        }
        if self.shortcut_bindings_json.as_str().is_empty() {
            self.shortcut_bindings_json = copy_string(
                "{\"1\":\"Ctrl+1\",\"2\":\"Ctrl+2\",\"3\":\"Ctrl+3\"}",
            );
            changed = true;
        }
        changed
    }
}

/// Accepts the loaded metadata of the account chosen for the text
/// recognition: an account that could not be loaded, or one not yet
/// initialized, is refused.
pub fn accept_ocr_target(account_id: &str, loaded: Result<AccountMeta, AppError>) -> (r: Result<AccountMeta, AppError>)
    ensures
        loaded is Err ==> (r matches Err(e) && is_config_write_error(e, "OCR 目标账号不存在: "@ + account_id@)),
        loaded matches Ok(m) ==> if m.initialized {
            r == loaded
        } else {
            r matches Err(e) && is_config_write_error(e, "OCR 目标账号尚未初始化: "@ + account_id@)
        },
{
    match loaded {
        Err(_) => Err(AppError::ConfigWriteError(message_with("OCR 目标账号不存在: ", account_id))),
        Ok(m) => {
            if m.initialized {
                Ok(m)
            } else {
                Err(AppError::ConfigWriteError(message_with("OCR 目标账号尚未初始化: ", account_id)))
            }
        },
    }
}

/// A folder of the game under `Saved Games`.
pub open spec fn is_game_folder(name: Seq<char>) -> bool {
    starts_with_spec(name, "Diablo II Resurrected"@)
}

/// The first name satisfying `want` among the game folders listed.
pub open spec fn first_game_folder(names: Seq<String>, cn_only: bool) -> Option<String>
    decreases names.len(),
{
    if names.len() == 0 {
        None
    } else if is_game_folder(names[0]@) && (!cn_only || contains_spec(names[0]@, "(CN)"@)) {
        Some(names[0])
    } else {
        first_game_folder(names.drop_first(), cn_only)
    }
}

/// The game's saved-games folder among the folder names under `Saved
/// Games`: of the game folders, the first whose name holds `(CN)`, else the
/// first.
pub open spec fn saved_games_choice(names: Seq<String>) -> Option<String> {
    match first_game_folder(names, true) {
        Some(n) => Some(n),
        None => first_game_folder(names, false),
    }
}

fn first_game_folder_index(names: &[String], cn_only: bool) -> (r: Option<usize>)
    ensures
        match first_game_folder(names@, cn_only) {
            Some(n) => r matches Some(i) && i < names@.len() && names@[i as int] == n,
            None => r is None,
        },
{
    let prefix = chars_of("Diablo II Resurrected");
    let cn = chars_of("(CN)");
    let mut i: usize = 0;
    assert(names@.skip(0) == names@);
    while i < names.len()
        invariant
            i <= names.len(),
            prefix@ == "Diablo II Resurrected"@,
            cn@ == "(CN)"@,
            first_game_folder(names@, cn_only) == first_game_folder(names@.skip(i as int), cn_only),
        decreases names.len() - i,
    {
        let v = chars_of(names[i].as_str());
        let hit = chars_start_with(v.as_slice(), prefix.as_slice()) && (!cn_only || chars_contain(
            v.as_slice(),
            cn.as_slice(),
        ));
        proof {
            assert(names@.skip(i as int)[0] == names@[i as int]);
            assert(names@.skip(i as int).drop_first() == names@.skip(i + 1));
        }
        if hit {
            return Some(i);
        }
        i += 1;
    }
    None
}

/// Picks the game's saved-games folder (see `saved_games_choice`).
pub fn choose_saved_games_folder(names: &[String]) -> (r: Option<String>)
    ensures
        match saved_games_choice(names@) {
            Some(n) => r matches Some(x) && x@ == n@,
            None => r is None,
        },
{
    proof {
        assert(names@.skip(0) == names@);
    }
    match first_game_folder_index(names, true) {
        Some(i) => Some(copy_string(names[i].as_str())),
        None => match first_game_folder_index(names, false) {
            Some(i) => Some(copy_string(names[i].as_str())),
            None => None,
        },
    }
}

// ---------------------------------------------------------------------------
// Keyboard shortcuts
// ---------------------------------------------------------------------------

/// `char::to_ascii_uppercase`.
pub open spec fn ascii_upper(c: char) -> char {
    if 'a' <= c <= 'z' {
        ((c as u32) - 32) as char
    } else {
        c
    }
}

/// A function key in lower case: `f` followed by a number from 1 to 24
/// written without leading zero (`f1` .. `f24`).
pub open spec fn is_function_key(p: Seq<char>) -> bool {
    &&& p.len() == 2 || p.len() == 3
    &&& p[0] == 'f'
    &&& if p.len() == 2 {
        '1' <= p[1] <= '9'
    } else {
        (p[1] == '1' && '0' <= p[2] <= '9') || (p[1] == '2' && '0' <= p[2] <= '4')
    }
}

/// The standard spelling of a lower-case key name: named keys get their
/// capitals, function keys `f1` .. `f24` become `F1` .. `F24`, a one-byte
/// key is upper-cased, anything else stays.
pub open spec fn key_part_name(p: Seq<char>) -> Seq<char> {
    if p == "ctrl"@ {
        "Ctrl"@
    } else if p == "alt"@ {
        "Alt"@
    } else if p == "shift"@ {
        "Shift"@
    } else if p == "space"@ {
        "Space"@
    } else if p == "enter"@ {
        "Enter"@
    } else if p == "tab"@ {
        "Tab"@
    } else if p == "escape"@ {
        "Escape"@
    } else if p == "backspace"@ {
        "Backspace"@
    } else if p == "delete"@ {
        "Delete"@
    } else if p == "insert"@ {
        "Insert"@
    } else if p == "home"@ {
        "Home"@
    } else if p == "end"@ {
        "End"@
    } else if p == "pageup"@ {
        "PageUp"@
    } else if p == "pagedown"@ {
        "PageDown"@
    } else if p == "up"@ {
        "Up"@
    } else if p == "down"@ {
        "Down"@
    } else if p == "left"@ {
        "Left"@
    } else if p == "right"@ {
        "Right"@
    } else if is_function_key(p) {
        seq!['F'] + p.drop_first()
    } else if p.len() == 1 && (p[0] as u32) < 0x80 {
        seq![ascii_upper(p[0])]
    } else {
        p
    }
}

/// Spells a lower-case key name the standard way (see `key_part_name`).
pub fn capitalize_key_part(p: &str) -> (r: String)
    ensures
        r@ == key_part_name(p@),
{
    if str_eq(p, "ctrl") {
        copy_string("Ctrl")
    } else if str_eq(p, "alt") {
        copy_string("Alt")
    } else if str_eq(p, "shift") {
        copy_string("Shift")
    } else if str_eq(p, "space") {
        copy_string("Space")
    } else if str_eq(p, "enter") {
        copy_string("Enter")
    } else if str_eq(p, "tab") {
        copy_string("Tab")
    } else if str_eq(p, "escape") {
        copy_string("Escape")
    } else if str_eq(p, "backspace") {
        copy_string("Backspace")
    } else if str_eq(p, "delete") {
        copy_string("Delete")
    } else if str_eq(p, "insert") {
        copy_string("Insert")
    } else if str_eq(p, "home") {
        copy_string("Home")
    } else if str_eq(p, "end") {
        copy_string("End")
    } else if str_eq(p, "pageup") {
        copy_string("PageUp")
    } else if str_eq(p, "pagedown") {
        copy_string("PageDown")
    } else if str_eq(p, "up") {
        copy_string("Up")
    } else if str_eq(p, "down") {
        copy_string("Down")
    } else if str_eq(p, "left") {
        copy_string("Left")
    } else if str_eq(p, "right") {
        copy_string("Right")
    } else {
        let v = chars_of(p);
        let fkey = (v.len() == 2 || v.len() == 3) && v[0] == 'f' && if v.len() == 2 {
            '1' <= v[1] && v[1] <= '9'
        } else {
            (v[1] == '1' && '0' <= v[2] && v[2] <= '9') || (v[1] == '2' && '0' <= v[2] && v[2] <= '4')
        };
        if fkey {
            let mut r = String::new();
            push_char(&mut r, 'F');
            let mut i: usize = 1;
            while i < v.len()
                invariant
                    1 <= i <= v.len(),
                    v@ == p@,
                    r@ == seq!['F'] + v@.subrange(1, i as int),
                decreases v.len() - i,
            {
                push_char(&mut r, v[i]);
                assert(v@.subrange(1, i + 1) == v@.subrange(1, i as int).push(v@[i as int]));
                i += 1;
            }
            assert(v@.subrange(1, v.len() as int) == v@.drop_first());
            return r;
        }
        if v.len() == 1 && (v[0] as u32) < 0x80 {
            let c = v[0];
            let u = if 'a' <= c && c <= 'z' {
                let b: u8 = (c as u32 - 32) as u8;
                b as char
            } else {
                c
            };
            let mut r = String::new();
            push_char(&mut r, u);
            r
        } else {
            copy_string(p)
        }
    }
}

/// Splitting at `+`, read from the left: the parts completed so far and
/// the part being read.
pub open spec fn plus_split_acc(s: Seq<char>) -> (Seq<Seq<char>>, Seq<char>)
    decreases s.len(),
{
    if s.len() == 0 {
        (Seq::empty(), Seq::empty())
    } else {
        let prev = plus_split_acc(s.drop_last());
        if s.last() == '+' {
            (prev.0.push(prev.1), Seq::empty())
        } else {
            (prev.0, prev.1.push(s.last()))
        }
    }
}

/// `str::split('+')`: the parts between the `+` signs, empty ones included.
pub open spec fn split_plus(s: Seq<char>) -> Seq<Seq<char>> {
    plus_split_acc(s).0.push(plus_split_acc(s).1)
}

/// A Windows, Meta or Command modifier, which shortcuts no longer take.
pub open spec fn is_win_modifier(p: Seq<char>) -> bool {
    p == "win"@ || p == "meta"@ || p == "cmd"@ || p == "command"@
}

/// The parts that stay, spelled the standard way.
pub open spec fn normalized_parts(parts: Seq<Seq<char>>) -> Seq<Seq<char>>
    decreases parts.len(),
{
    if parts.len() == 0 {
        Seq::empty()
    } else {
        let rest = normalized_parts(parts.drop_last());
        if is_win_modifier(parts.last()) {
            rest
        } else {
            rest.push(key_part_name(parts.last()))
        }
    }
}

/// The parts joined with `+`.
pub open spec fn join_plus(parts: Seq<Seq<char>>) -> Seq<char>
    decreases parts.len(),
{
    if parts.len() == 0 {
        Seq::empty()
    } else if parts.len() == 1 {
        parts[0]
    } else {
        join_plus(parts.drop_last()) + "+"@ + parts.last()
    }
}

/// A key combination in the standard form: lower-cased, split at `+`,
/// without Windows modifiers, each key spelled the standard way and joined
/// with `+`; `None` when only Windows modifiers were left.
pub open spec fn normalize_shortcut_spec(combo: Seq<char>) -> Option<Seq<char>> {
    let kept = normalized_parts(split_plus(lowercase(combo)));
    if kept.len() == 0 {
        None
    } else {
        Some(join_plus(kept))
    }
}

fn finish_part(out: &mut String, any: &mut bool, part: &str)
    ensures
        is_win_modifier(part@) ==> *final(out) == *old(out) && *final(any) == *old(any),
        !is_win_modifier(part@) ==> *final(any) && final(out)@ == (if !*old(any) {
            key_part_name(part@)
        } else {
            old(out)@ + "+"@ + key_part_name(part@)
        }),
{
    if str_eq(part, "win") || str_eq(part, "meta") || str_eq(part, "cmd") || str_eq(part, "command") {
        return;
    }
    let name = capitalize_key_part(part);
    if !*any {
        *out = name;
    } else {
        push_char(out, '+');
        let nv = chars_of(name.as_str());
        push_all(out, nv.as_slice());
        proof {
            reveal_strlit("+");
            assert(seq!['+'] == "+"@);
        }
    }
    *any = true;
}

proof fn lemma_join_push(parts: Seq<Seq<char>>, p: Seq<char>)
    ensures
        join_plus(parts.push(p)) == if parts.len() == 0 {
            p
        } else {
            join_plus(parts) + "+"@ + p
        },
{
    assert(parts.push(p).drop_last() == parts);
    if parts.len() == 0 {
        assert(parts.push(p)[0] == p);
    }
}

/// Brings a key combination into the standard form (see
/// `normalize_shortcut_spec`).
pub fn normalize_shortcut(combo: &str) -> (r: Option<String>)
    ensures
        match normalize_shortcut_spec(combo@) {
            Some(n) => r matches Some(x) && x@ == n,
            None => r is None,
        },
{
    let lower = to_lowercase(combo);
    let v = chars_of(lower.as_str());
    let mut out = String::new();
    let mut any = false;
    let mut cur = String::new();
    let mut i: usize = 0;
    while i < v.len()
        invariant
            i <= v.len(),
            v@ == lowercase(combo@),
            cur@ == plus_split_acc(v@.take(i as int)).1,
            any == (normalized_parts(plus_split_acc(v@.take(i as int)).0).len() > 0),
            out@ == join_plus(normalized_parts(plus_split_acc(v@.take(i as int)).0)),
        decreases v.len() - i,
    {
        let c = v[i];
        let ghost acc = plus_split_acc(v@.take(i as int));
        proof {
            assert(v@.take(i + 1).drop_last() == v@.take(i as int));
            assert(v@.take(i + 1).last() == c);
        }
        if c == '+' {
            let ghost parts0 = normalized_parts(acc.0);
            finish_part(&mut out, &mut any, cur.as_str());
            proof {
                assert(acc.0.push(acc.1).drop_last() == acc.0);
                assert(acc.0.push(acc.1).last() == acc.1);
                if !is_win_modifier(acc.1) {
                    lemma_join_push(parts0, key_part_name(acc.1));
                }
            }
            cur = String::new();
        } else {
            push_char(&mut cur, c);
        }
        i += 1;
    }
    proof {
        assert(v@.take(v.len() as int) == v@);
    }
    let ghost acc = plus_split_acc(v@);
    let ghost parts0 = normalized_parts(acc.0);
    finish_part(&mut out, &mut any, cur.as_str());
    proof {
        assert(acc.0.push(acc.1).drop_last() == acc.0);
        assert(acc.0.push(acc.1).last() == acc.1);
        if !is_win_modifier(acc.1) {
            lemma_join_push(parts0, key_part_name(acc.1));
        }
    }
    if !any {
        None
    } else {
        Some(out)
    }
}

/// A binding from an account position to a key combination, after
/// normalization: dropped when nothing but Windows modifiers is left.
pub open spec fn binding_after(b: (String, String)) -> Option<(Seq<char>, Seq<char>)> {
    match normalize_shortcut_spec(b.1@) {
        Some(n) => Some((b.0@, n)),
        None => None,
    }
}

/// Normalizing changes the binding.
pub open spec fn binding_changes(b: (String, String)) -> bool {
    match normalize_shortcut_spec(b.1@) {
        Some(n) => n != b.1@,
        None => true,
    }
}

/// The texts of a list of bindings.
pub open spec fn binding_texts(v: Seq<(String, String)>) -> Seq<(Seq<char>, Seq<char>)> {
    v.map_values(|b: (String, String)| (b.0@, b.1@))
}

/// Normalizes every shortcut binding (see `binding_after`), and says whether
/// any of them changed, in which case the bindings must be saved again.
pub fn normalize_bindings(bindings: Vec<(String, String)>) -> (r: (Vec<(String, String)>, bool))
    ensures
        binding_texts(r.0@) == bindings@.filter_map(|b: (String, String)| binding_after(b)),
        r.1 == exists|i: int| 0 <= i < bindings@.len() && binding_changes(#[trigger] bindings@[i]),
{
    let ghost f = |b: (String, String)| binding_after(b);
    let mut out: Vec<(String, String)> = Vec::new();
    let mut changed = false;
    let mut i: usize = 0;
    while i < bindings.len()
        invariant
            i <= bindings.len(),
            f == (|b: (String, String)| binding_after(b)),
            binding_texts(out@) == bindings@.take(i as int).filter_map(f),
            changed == exists|j: int| 0 <= j < i && binding_changes(#[trigger] bindings@[j]),
        decreases bindings.len() - i,
    {
        proof {
            bindings@.lemma_filter_map_take_succ(f, i as int);
        }
        let ghost out0 = out@;
        let pos = &bindings[i].0;
        let combo = &bindings[i].1;
        match normalize_shortcut(combo.as_str()) {
            None => {
                changed = true;
                proof {
                    assert(binding_texts(out@) == binding_texts(out0) + Seq::<(Seq<char>, Seq<char>)>::empty());
                }
            },
            Some(n) => {
                if !str_eq(n.as_str(), combo.as_str()) {
                    changed = true;
                }
                out.push((copy_string(pos.as_str()), n));
                proof {
                    assert(binding_texts(out@) == binding_texts(out0) + seq![f(bindings@[i as int])->0]);
                }
            },
        }
        proof {
            assert(changed == exists|j: int| 0 <= j < i + 1 && binding_changes(#[trigger] bindings@[j]))
                by {
                if binding_changes(bindings@[i as int]) {
                    assert(0 <= i < i + 1);
                }
            }
        }
        i += 1;
    }
    assert(bindings@.take(bindings.len() as int) == bindings@);
    (out, changed)
}

/// The lookup entry of a binding: the key combination in lower case and the
/// position, when the position reads as a `usize` of at least 1.
pub open spec fn shortcut_entry(b: (String, String)) -> Option<(Seq<char>, nat)> {
    match parse_bounded_spec(b.0@, usize::MAX as nat) {
        Some(n) => if n >= 1 {
            Some((lowercase(b.1@), n))
        } else {
            None
        },
        None => None,
    }
}

/// The texts of a list of lookup entries.
pub open spec fn entry_texts(v: Seq<(String, usize)>) -> Seq<(Seq<char>, nat)> {
    v.map_values(|e: (String, usize)| (e.0@, e.1 as nat))
}

/// The entries of the shortcut lookup, from the combination in lower case
/// to the account position, in the order of the bindings (a later entry for
/// the same combination wins).
pub fn shortcut_entries(bindings: &[(String, String)]) -> (r: Vec<(String, usize)>)
    ensures
        entry_texts(r@) == bindings@.filter_map(|b: (String, String)| shortcut_entry(b)),
{
    let ghost f = |b: (String, String)| shortcut_entry(b);
    let mut out: Vec<(String, usize)> = Vec::new();
    let mut i: usize = 0;
    while i < bindings.len()
        invariant
            i <= bindings.len(),
            f == (|b: (String, String)| shortcut_entry(b)),
            entry_texts(out@) == bindings@.take(i as int).filter_map(f),
        decreases bindings.len() - i,
    {
        proof {
            bindings@.lemma_filter_map_take_succ(f, i as int);
        }
        let ghost out0 = out@;
        let pv = chars_of(bindings[i].0.as_str());
        let parsed = parse_decimal(pv.as_slice(), usize::MAX as u64);
        let mut took = false;
        if let Some(n) = parsed {
            if n >= 1 {
                let pos = n as usize;
                out.push((to_lowercase(bindings[i].1.as_str()), pos));
                took = true;
                proof {
                    assert(entry_texts(out@) == entry_texts(out0) + seq![f(bindings@[i as int])->0]);
                }
            }
        }
        proof {
            if !took {
                assert(f(bindings@[i as int]) is None);
                assert(entry_texts(out@) == entry_texts(out0) + Seq::<(Seq<char>, nat)>::empty());
            }
        }
        i += 1;
    }
    assert(bindings@.take(bindings.len() as int) == bindings@);
    out
}

/// The load migrations settle: applied to a configuration they already
/// migrated, with the same accounts directory, they change nothing.
pub proof fn lemma_load_migrations_settle(before: GlobalConfig, once: GlobalConfig, accounts_dir: Seq<char>)
    requires
        once.accounts_dir@ == accounts_dir,
        once.shortcut_bindings_json@ == (if before.shortcut_bindings_json@.len() == 0 {
            default_shortcuts()
        } else {
            before.shortcut_bindings_json@
        }),
    ensures
        !(once.accounts_dir@ != accounts_dir || once.shortcut_bindings_json@.len() == 0),
{
    reveal_strlit("{\"1\":\"Ctrl+1\",\"2\":\"Ctrl+2\",\"3\":\"Ctrl+3\"}");
}

/// Turning the text recognition off for an invalid target settles: after a
/// normalization the recognition is on only with a valid target, and a
/// second normalization with the same verdict changes nothing.
pub proof fn lemma_ocr_normalization_settles(before: GlobalConfig, after: GlobalConfig, target_ok: bool)
    requires
        after == (GlobalConfig { ocr_enabled: before.ocr_enabled && target_ok, ..before }),
    ensures
        after.ocr_enabled ==> target_ok,
        !(after.ocr_enabled && !target_ok),
        (GlobalConfig { ocr_enabled: after.ocr_enabled && target_ok, ..after }) == after,
{
}


/// The parts that stay, before they are spelled the standard way.
pub open spec fn kept_parts(parts: Seq<Seq<char>>) -> Seq<Seq<char>>
    decreases parts.len(),
{
    if parts.len() == 0 {
        Seq::empty()
    } else {
        let rest = kept_parts(parts.drop_last());
        if is_win_modifier(parts.last()) {
            rest
        } else {
            rest.push(parts.last())
        }
    }
}

/// The text holds no `+`.
pub open spec fn no_plus(p: Seq<char>) -> bool {
    forall|i: int| 0 <= i < p.len() ==> p[i] != '+'
}

proof fn lemma_split_parts_no_plus(s: Seq<char>)
    ensures
        no_plus(plus_split_acc(s).1),
        forall|i: int| 0 <= i < plus_split_acc(s).0.len() ==> no_plus(#[trigger] plus_split_acc(s).0[i]),
    decreases s.len(),
{
    if s.len() > 0 {
        lemma_split_parts_no_plus(s.drop_last());
        let prev = plus_split_acc(s.drop_last());
        if s.last() == '+' {
            assert forall|i: int| 0 <= i < plus_split_acc(s).0.len() implies no_plus(#[trigger] plus_split_acc(s).0[i]) by {
                if i < prev.0.len() {
                    assert(plus_split_acc(s).0[i] == prev.0[i]);
                }
            }
        } else {
            let p1 = prev.1.push(s.last());
            assert forall|i: int| 0 <= i < p1.len() implies p1[i] != '+' by {
                if i < prev.1.len() {
                    assert(p1[i] == prev.1[i]);
                }
            }
        }
    }
}

proof fn lemma_kept_parts_no_plus(parts: Seq<Seq<char>>)
    requires
        forall|i: int| 0 <= i < parts.len() ==> no_plus(#[trigger] parts[i]),
    ensures
        forall|i: int| 0 <= i < kept_parts(parts).len() ==> no_plus(#[trigger] kept_parts(parts)[i]),
        normalized_parts(kept_parts(parts)) == normalized_parts(parts),
        kept_parts(parts).len() == normalized_parts(parts).len(),
    decreases parts.len(),
{
    if parts.len() > 0 {
        let rest = parts.drop_last();
        assert forall|i: int| 0 <= i < rest.len() implies no_plus(#[trigger] rest[i]) by {
            assert(rest[i] == parts[i]);
        }
        lemma_kept_parts_no_plus(rest);
        let k = kept_parts(rest);
        if !is_win_modifier(parts.last()) {
            let k1 = k.push(parts.last());
            assert(k1.drop_last() == k);
            assert forall|i: int| 0 <= i < k1.len() implies no_plus(#[trigger] k1[i]) by {
                if i < k.len() {
                    assert(k1[i] == k[i]);
                } else {
                    assert(k1[i] == parts[parts.len() - 1]);
                }
            }
        }
    }
}

proof fn lemma_acc_append(a: Seq<char>, b: Seq<char>)
    requires
        no_plus(b),
    ensures
        plus_split_acc(a + b) == (plus_split_acc(a).0, plus_split_acc(a).1 + b),
    decreases b.len(),
{
    if b.len() == 0 {
        assert(a + b =~= a);
        assert(plus_split_acc(a).1 + b =~= plus_split_acc(a).1);
    } else {
        let b0 = b.drop_last();
        assert forall|i: int| 0 <= i < b0.len() implies b0[i] != '+' by {
            assert(b0[i] == b[i]);
        }
        lemma_acc_append(a, b0);
        assert((a + b).drop_last() =~= a + b0);
        assert((a + b).last() == b.last());
        assert(b[b.len() - 1] != '+');
        assert(plus_split_acc(a).1 + b0 + seq![b.last()] =~= plus_split_acc(a).1 + b);
        assert((plus_split_acc(a).1 + b0).push(b.last()) =~= plus_split_acc(a).1 + b);
    }
}

proof fn lemma_split_join(q: Seq<Seq<char>>)
    requires
        q.len() > 0,
        forall|i: int| 0 <= i < q.len() ==> no_plus(#[trigger] q[i]),
    ensures
        split_plus(join_plus(q)) == q,
    decreases q.len(),
{
    if q.len() == 1 {
        lemma_acc_append(Seq::empty(), q[0]);
        assert(Seq::<char>::empty() + q[0] =~= q[0]);
        assert(Seq::<char>::empty() + q[0] =~= q[0]);
        assert(split_plus(q[0]) =~= q);
    } else {
        let q0 = q.drop_last();
        assert forall|i: int| 0 <= i < q0.len() implies no_plus(#[trigger] q0[i]) by {
            assert(q0[i] == q[i]);
        }
        lemma_split_join(q0);
        let j0 = join_plus(q0);
        let last = q[q.len() - 1];
        assert(no_plus(last));
        reveal_strlit("+");
        let a = j0 + "+"@;
        assert(a =~= j0.push('+'));
        assert(a.drop_last() =~= j0);
        assert(plus_split_acc(a) == (split_plus(j0), Seq::<char>::empty()));
        lemma_acc_append(a, last);
        assert(join_plus(q) == a + last);
        assert(Seq::<char>::empty() + last =~= last);
        assert(split_plus(join_plus(q)) =~= q0.push(last));
        assert(q0.push(last) =~= q);
    }
}

/// Normalizing a combination already in the standard form gives it back,
/// provided that lower-casing the standard form gives back the lower-case
/// keys it was built from (as it does for the ASCII key names).
pub proof fn lemma_normalized_shortcut_settles(c: Seq<char>, n: Seq<char>)
    requires
        normalize_shortcut_spec(c) == Some(n),
        lowercase(n) == join_plus(kept_parts(split_plus(lowercase(c)))),
    ensures
        normalize_shortcut_spec(n) == Some(n),
{
    let p = split_plus(lowercase(c));
    let acc = plus_split_acc(lowercase(c));
    lemma_split_parts_no_plus(lowercase(c));
    assert forall|i: int| 0 <= i < p.len() implies no_plus(#[trigger] p[i]) by {
        if i < acc.0.len() {
            assert(p[i] == acc.0[i]);
        } else {
            assert(p[i] == acc.1);
        }
    }
    lemma_kept_parts_no_plus(p);
    let k = kept_parts(p);
    lemma_split_join(k);
}

// ---------------------------------------------------------------------------
// The shortcut bindings as stored: a JSON object of position to combination
// ---------------------------------------------------------------------------

/// The bindings that `serde_json::from_str::<HashMap<String, String>>` reads
/// from the text, as a map from account position to key combination; `None`
/// when the text is not a JSON object of strings.
pub uninterp spec fn bindings_of_text(text: Seq<char>) -> Option<Map<Seq<char>, Seq<char>>>;

/// The map that collecting the pairs into a `HashMap` gives: a later pair
/// for the same key wins.
pub open spec fn pairs_map(s: Seq<(Seq<char>, Seq<char>)>) -> Map<Seq<char>, Seq<char>>
    decreases s.len(),
{
    if s.len() == 0 {
        Map::empty()
    } else {
        pairs_map(s.drop_last()).insert(s.last().0, s.last().1)
    }
}

/// No key occurs twice among the pairs.
pub open spec fn distinct_keys(s: Seq<(Seq<char>, Seq<char>)>) -> bool {
    forall|i: int, j: int| 0 <= i < j < s.len() ==> #[trigger] s[i].0 != #[trigger] s[j].0
}

/// `serde_json::from_str::<HashMap<String, String>>`, with the map's
/// entries handed out in its walk order, which depends on the hasher's
/// seed: only the map they make up is stated.
#[verifier::external_body]
fn parse_bindings_text(text: &str) -> (r: Option<Vec<(String, String)>>)
    ensures
        match bindings_of_text(text@) {
            None => r is None,
            Some(m) => r matches Some(v) && distinct_keys(binding_texts(v@)) && pairs_map(
                binding_texts(v@),
            ) == m,
        },
{
    serde_json::from_str::<std::collections::HashMap<String, String>>(text).ok().map(|m| m.into_iter().collect())
}

/// `serde_json::to_string` of the pairs collected into a `HashMap`.  The
/// order of the written entries depends on the hasher's seed; reading the
/// text back gives the map of the pairs.
#[verifier::external_body]
fn bindings_text(v: &Vec<(String, String)>) -> (r: String)
    ensures
        bindings_of_text(r@) == Some(pairs_map(binding_texts(v@))),
{
    serde_json::to_string(&v.iter().cloned().collect::<std::collections::HashMap<String, String>>()).unwrap_or_else(
        |_| "{}".to_string(),
    )
}

/// Normalizing changes the combination (or drops it).
pub open spec fn combo_changes(c: Seq<char>) -> bool {
    match normalize_shortcut_spec(c) {
        Some(n) => n != c,
        None => true,
    }
}

/// The bindings after normalization: each combination in the standard
/// form, those left with nothing but Windows modifiers dropped.
pub open spec fn normalized_map(m: Map<Seq<char>, Seq<char>>) -> Map<Seq<char>, Seq<char>> {
    Map::new(
        |k: Seq<char>| m.dom().contains(k) && normalize_shortcut_spec(m[k]) is Some,
        |k: Seq<char>| normalize_shortcut_spec(m[k])->0,
    )
}

proof fn lemma_pairs_map_dom(s: Seq<(Seq<char>, Seq<char>)>, k: Seq<char>)
    ensures
        pairs_map(s).dom().contains(k) <==> exists|i: int| 0 <= i < s.len() && (#[trigger] s[i]).0 == k,
    decreases s.len(),
{
    if s.len() > 0 {
        lemma_pairs_map_dom(s.drop_last(), k);
        if pairs_map(s).dom().contains(k) && k != s.last().0 {
            let i = choose|i: int| 0 <= i < s.len() - 1 && (#[trigger] s.drop_last()[i]).0 == k;
            assert(s[i] == s.drop_last()[i]);
        }
        if exists|i: int| 0 <= i < s.len() && (#[trigger] s[i]).0 == k {
            let i = choose|i: int| 0 <= i < s.len() && (#[trigger] s[i]).0 == k;
            if i < s.len() - 1 {
                assert(s.drop_last()[i] == s[i]);
            }
        }
    }
}

proof fn lemma_pairs_map_value(s: Seq<(Seq<char>, Seq<char>)>, i: int)
    requires
        distinct_keys(s),
        0 <= i < s.len(),
    ensures
        pairs_map(s).dom().contains(s[i].0),
        pairs_map(s)[s[i].0] == s[i].1,
    decreases s.len(),
{
    if i < s.len() - 1 {
        let t = s.drop_last();
        assert(t[i] == s[i]);
        assert(distinct_keys(t)) by {
            assert forall|a: int, b: int| 0 <= a < b < t.len() implies #[trigger] t[a].0 != #[trigger] t[b].0 by {
                assert(t[a] == s[a] && t[b] == s[b]);
            }
        }
        lemma_pairs_map_value(t, i);
        assert(s[i].0 != s[s.len() - 1].0);
    }
}

proof fn lemma_texts_drop_last(v: Seq<(String, String)>)
    requires
        v.len() > 0,
    ensures
        binding_texts(v).drop_last() == binding_texts(v.drop_last()),
        binding_texts(v).last() == (v.last().0@, v.last().1@),
        binding_texts(v).len() == v.len(),
{
    assert(binding_texts(v).drop_last() =~= binding_texts(v.drop_last()));
}

proof fn lemma_normalized_pairs(v: Seq<(String, String)>)
    requires
        distinct_keys(binding_texts(v)),
    ensures
        pairs_map(v.filter_map(|b: (String, String)| binding_after(b))) == normalized_map(
            pairs_map(binding_texts(v)),
        ),
    decreases v.len(),
{
    let f = |b: (String, String)| binding_after(b);
    if v.len() == 0 {
        assert(v.filter_map(f) =~= Seq::<(Seq<char>, Seq<char>)>::empty());
        assert(normalized_map(pairs_map(binding_texts(v))) =~= Map::empty());
    } else {
        let w = v.drop_last();
        let t = binding_texts(v);
        lemma_texts_drop_last(v);
        assert(distinct_keys(binding_texts(w))) by {
            assert forall|a: int, b: int|
                0 <= a < b < binding_texts(w).len() implies #[trigger] binding_texts(w)[a].0
                != #[trigger] binding_texts(w)[b].0 by {
                assert(binding_texts(w)[a] == t[a] && binding_texts(w)[b] == t[b]);
            }
        }
        lemma_normalized_pairs(w);
        let k = v.last().0@;
        let c = v.last().1@;
        let m0 = pairs_map(binding_texts(w));
        assert(pairs_map(t) == m0.insert(k, c));
        assert(!m0.dom().contains(k)) by {
            lemma_pairs_map_dom(binding_texts(w), k);
            if m0.dom().contains(k) {
                let i = choose|i: int| 0 <= i < binding_texts(w).len() && (#[trigger] binding_texts(w)[i]).0 == k;
                assert(t[i] == binding_texts(w)[i]);
                assert(t[t.len() - 1].0 == k);
            }
        }
        match normalize_shortcut_spec(c) {
            Some(n) => {
                assert(v.filter_map(f) == w.filter_map(f) + seq![(k, n)]);
                let lhs = w.filter_map(f) + seq![(k, n)];
                assert(lhs.drop_last() =~= w.filter_map(f));
                assert(normalized_map(m0.insert(k, c)) =~= normalized_map(m0).insert(k, n));
            },
            None => {
                assert(v.filter_map(f) == w.filter_map(f));
                assert(normalized_map(m0.insert(k, c)) =~= normalized_map(m0));
            },
        }
    }
}

/// Normalizes the shortcut bindings stored as JSON text (see
/// `normalized_map`), and says whether any binding changed; only then is the
/// text rewritten.  Text that is not a JSON object of strings is left alone.
pub fn strip_win_modifiers(json: &mut String) -> (changed: bool)
    ensures
        match bindings_of_text(old(json)@) {
            None => !changed && *final(json) == *old(json),
            Some(m) => {
                &&& changed == exists|k: Seq<char>| #[trigger] m.dom().contains(k) && combo_changes(m[k])
                &&& changed ==> bindings_of_text(final(json)@) == Some(normalized_map(m))
                &&& !changed ==> *final(json) == *old(json)
            },
        },
{
    let v = match parse_bindings_text(json.as_str()) {
        Some(v) => v,
        None => {
            return false;
        },
    };
    let ghost m = pairs_map(binding_texts(v@));
    let ghost t = binding_texts(v@);
    let ghost vs = v@;
    let (cleaned, changed) = normalize_bindings(v);
    proof {
        lemma_normalized_pairs(vs);
        assert(t.len() == vs.len());
        if changed {
            let i = choose|i: int| 0 <= i < vs.len() && binding_changes(#[trigger] vs[i]);
            lemma_pairs_map_value(t, i);
            assert(t[i] == (vs[i].0@, vs[i].1@));
            assert(m.dom().contains(t[i].0) && combo_changes(m[t[i].0]));
        } else {
            assert forall|k: Seq<char>| #[trigger] m.dom().contains(k) implies !combo_changes(m[k]) by {
                lemma_pairs_map_dom(t, k);
                let i = choose|i: int| 0 <= i < t.len() && (#[trigger] t[i]).0 == k;
                lemma_pairs_map_value(t, i);
                assert(t[i] == (vs[i].0@, vs[i].1@));
                assert(!binding_changes(vs[i]));
            }
        }
    }
    if changed {
        *json = bindings_text(&cleaned);
    }
    changed
}


/// The lookup from key combination to account position for the bindings
/// stored as JSON text (see `shortcut_entries`), in the walk order of the
/// parsed map; no entries when the text is not a JSON object of strings.
pub fn shortcut_lookup(json: &str) -> (r: Vec<(String, usize)>)
    ensures
        match bindings_of_text(json@) {
            None => r@.len() == 0,
            Some(m) => exists|v: Seq<(String, String)>|
                distinct_keys(#[trigger] binding_texts(v)) && pairs_map(binding_texts(v)) == m && entry_texts(r@)
                    == v.filter_map(|b: (String, String)| shortcut_entry(b)),
        },
{
    match parse_bindings_text(json) {
        Some(v) => {
            let r = shortcut_entries(v.as_slice());
            assert(distinct_keys(binding_texts(v@)));
            r
        },
        None => Vec::new(),
    }
}


/// Stored bindings settle: after `strip_win_modifiers` rewrote them, a
/// second call finds no binding to change (its `changed` is false and it
/// leaves the text alone), provided that lower-casing each normalized
/// combination gives back the lower-case keys it was built from.
pub proof fn lemma_strip_win_modifiers_settles(m: Map<Seq<char>, Seq<char>>)
    requires
        forall|k: Seq<char>|
            #![trigger m[k]]
            m.dom().contains(k) && normalize_shortcut_spec(m[k]) is Some ==> lowercase(
                normalize_shortcut_spec(m[k])->0,
            ) == join_plus(kept_parts(split_plus(lowercase(m[k])))),
    ensures
        !exists|k: Seq<char>| #[trigger] normalized_map(m).dom().contains(k) && combo_changes(normalized_map(m)[k]),
{
    assert forall|k: Seq<char>| #[trigger] normalized_map(m).dom().contains(k) implies !combo_changes(
        normalized_map(m)[k],
    ) by {
        let n = normalize_shortcut_spec(m[k])->0;
        lemma_normalized_shortcut_settles(m[k], n);
    }
}


/// A browser configured by type must be that browser: with the client and
/// game paths usable and a browser file configured, a `chrome` browser
/// whose file is not `chrome.exe` (or an `edge` one whose file is not
/// `msedge.exe`) is refused with the message naming the path, and one whose
/// file fits its type is accepted.
pub proof fn lemma_browser_file_must_fit_its_type(c: GlobalConfig, k: PathChecks, r: Result<(), AppError>)
    requires
        path_check_outcome(c, k, r),
        k.battle_net_is_file,
        k.battle_net_named,
        k.game_is_dir,
        trim_spec(c.browser_path@).len() > 0,
        k.browser_is_file,
    ensures
        c.browser_type@ == "chrome"@ && !k.browser_named_chrome ==> (r matches Err(AppError::ConfigWriteError(m))
            && m@ == "浏览器类型为 chrome，但路径不是 chrome.exe: "@ + c.browser_path@),
        c.browser_type@ == "edge"@ && !k.browser_named_edge ==> (r matches Err(AppError::ConfigWriteError(m))
            && m@ == "浏览器类型为 edge，但路径不是 msedge.exe: "@ + c.browser_path@),
        c.browser_type@ == "chrome"@ && k.browser_named_chrome ==> r is Ok,
        c.browser_type@ == "edge"@ && k.browser_named_edge ==> r is Ok,
{
    reveal_strlit("chrome");
    reveal_strlit("edge");
    assert("chrome"@ != "edge"@) by {
        assert("chrome"@[0] != "edge"@[0]);
    }
}

proof fn lemma_acc_after_part(pre: Seq<char>, a: Seq<char>, b: Seq<char>)
    requires
        plus_split_acc(pre) == (seq![a], Seq::<char>::empty()),
    ensures
        plus_split_acc(pre + b) == (seq![a] + plus_split_acc(b).0, plus_split_acc(b).1),
    decreases b.len(),
{
    if b.len() == 0 {
        assert(pre + b =~= pre);
        assert(seq![a] + Seq::<Seq<char>>::empty() =~= seq![a]);
    } else {
        let b0 = b.drop_last();
        lemma_acc_after_part(pre, a, b0);
        assert((pre + b).drop_last() =~= pre + b0);
        assert((pre + b).last() == b.last());
        let prev = plus_split_acc(b0);
        if b.last() == '+' {
            assert((seq![a] + prev.0).push(prev.1) =~= seq![a] + prev.0.push(prev.1));
        }
    }
}

proof fn lemma_normalized_parts_skip_modifier(m: Seq<char>, q: Seq<Seq<char>>)
    requires
        is_win_modifier(m),
    ensures
        normalized_parts(seq![m] + q) == normalized_parts(q),
    decreases q.len(),
{
    let x = seq![m] + q;
    if q.len() == 0 {
        assert(x =~= seq![m]);
        assert(x.drop_last() =~= Seq::<Seq<char>>::empty());
        assert(x.last() == m);
        assert(normalized_parts(x) == normalized_parts(x.drop_last()));
    } else {
        lemma_normalized_parts_skip_modifier(m, q.drop_last());
        assert(x.drop_last() =~= seq![m] + q.drop_last());
        assert(x.last() == q.last());
        assert(normalized_parts(x) == (if is_win_modifier(q.last()) {
            normalized_parts(x.drop_last())
        } else {
            normalized_parts(x.drop_last()).push(key_part_name(q.last()))
        }));
    }
}

/// The Windows, Meta and Command modifiers are dropped: after lower-casing,
/// a combination that starts with `win+`, `meta+`, `cmd+` or `command+`
/// gives the same keys as the rest of it.
pub proof fn lemma_modifier_prefix_dropped(m: Seq<char>, rest: Seq<char>)
    requires
        m == "win"@ || m == "meta"@ || m == "cmd"@ || m == "command"@,
    ensures
        normalized_parts(split_plus(m + "+"@ + rest)) == normalized_parts(split_plus(rest)),
{
    reveal_strlit("win");
    reveal_strlit("meta");
    reveal_strlit("cmd");
    reveal_strlit("command");
    reveal_strlit("+");
    assert(no_plus(m));
    lemma_acc_append(Seq::empty(), m);
    assert(Seq::<char>::empty() + m =~= m);
    let pre = m + "+"@;
    assert(pre =~= m.push('+'));
    assert(pre.drop_last() =~= m);
    assert(plus_split_acc(Seq::<char>::empty()) == (Seq::<Seq<char>>::empty(), Seq::<char>::empty()));
    assert(Seq::<char>::empty() + m =~= m);
    assert(plus_split_acc(m).0 =~= Seq::<Seq<char>>::empty());
    assert(Seq::<Seq<char>>::empty().push(m) =~= seq![m]);
    assert(plus_split_acc(pre) == (seq![m], Seq::<char>::empty()));
    lemma_acc_after_part(pre, m, rest);
    let acc = plus_split_acc(rest);
    assert(split_plus(pre + rest) =~= seq![m] + split_plus(rest));
    lemma_normalized_parts_skip_modifier(m, split_plus(rest));
}

/// Normalizing a combination whose lower-cased form is `win+`, `meta+`,
/// `cmd+` or `command+` followed by the lower-cased form of another gives
/// what normalizing the other gives: `Cmd+X` normalizes as `X`.
pub proof fn lemma_modifier_prefix_normalizes_away(c: Seq<char>, c2: Seq<char>, m: Seq<char>)
    requires
        m == "win"@ || m == "meta"@ || m == "cmd"@ || m == "command"@,
        lowercase(c) == m + "+"@ + lowercase(c2),
    ensures
        normalize_shortcut_spec(c) == normalize_shortcut_spec(c2),
{
    lemma_modifier_prefix_dropped(m, lowercase(c2));
}

} // verus!
