//! What the launcher reads off the running system: the process list, the
//! top-level windows and the TCP table, each handed in as plain values, and
//! the choices made from them.  Also the progress events and the release
//! information shown to the user.
use vstd::prelude::*;
use crate::json::{field, find_key, JsonValue};
use crate::json_text::{json_error_of_text, json_of_text, parse_json_text};
use crate::text::{
    chars_end_with, chars_of, contains_spec, copy_string, ends_with_spec,
    eq_ignore_ascii_case, eq_ignore_ascii_case_spec, lowercase, str_contains, str_eq,
    to_lowercase,
};

verus! {

/// A progress event of a launch, shown to the user.
#[derive(Debug, Clone)]
pub struct LaunchProgress {
    pub account_id: String,
    pub step: String,
    /// `"pending"`, `"running"`, `"ok"` or `"error"`.
    pub status: String,
    pub message: String,
}

impl LaunchProgress {
    /// An event with these texts.
    pub fn new(account_id: &str, step: &str, status: &str, message: &str) -> (r: Self)
        ensures
            r.account_id@ == account_id@,
            r.step@ == step@,
            r.status@ == status@,
            r.message@ == message@,
    {
        LaunchProgress {
            account_id: copy_string(account_id),
            step: copy_string(step),
            status: copy_string(status),
            message: copy_string(message),
        }
    }
}

/// A progress event of an account's initialization.
#[derive(Debug, Clone)]
pub struct InitProgress {
    pub account_id: String,
    pub step: String,
    pub status: String,
    pub message: String,
}

/// The latest release: its version and the installer to download.
#[derive(Debug, Clone)]
pub struct CloudVersionInfo {
    pub version: String,
    pub download_url: String,
}

// ---------------------------------------------------------------------------
// The process list
// ---------------------------------------------------------------------------

/// The pid of a listed process when `keep` holds of its name.
pub open spec fn pid_when(keep: spec_fn(Seq<char>) -> bool) -> spec_fn((u32, String)) -> Option<u32> {
    |p: (u32, String)| if keep(p.1@) { Some(p.0) } else { None }
}

/// The pids of the processes whose name is exactly `name`, in list order.
pub open spec fn pids_named_spec(procs: Seq<(u32, String)>, name: Seq<char>) -> Seq<u32> {
    procs.filter_map(pid_when(|n: Seq<char>| n == name))
}

/// The pids of the processes named `name` (exactly), in list order.
pub fn pids_named(procs: &[(u32, String)], name: &str) -> (r: Vec<u32>)
    ensures
        r@ == pids_named_spec(procs@, name@),
{
    let ghost f = pid_when(|n: Seq<char>| n == name@);
    let mut out: Vec<u32> = Vec::new();
    let mut i: usize = 0;
    while i < procs.len()
        invariant
            i <= procs.len(),
            f == pid_when(|n: Seq<char>| n == name@),
            out@ == procs@.take(i as int).filter_map(f),
        decreases procs.len() - i,
    {
        proof {
            procs@.lemma_filter_map_take_succ(f, i as int);
        }
        let ghost o0 = out@;
        if str_eq(procs[i].1.as_str(), name) {
            out.push(procs[i].0);
            assert(out@ == o0 + seq![procs@[i as int].0]);
        } else {
            assert(out@ == o0 + Seq::<u32>::empty());
        }
        i += 1;
    }
    assert(procs@.take(procs.len() as int) == procs@);
    out
}

/// The number of processes named `name` (exactly); with `Battle.net.exe`
/// this tells how far the client has come (seven once logged in).
pub fn count_named(procs: &[(u32, String)], name: &str) -> (r: usize)
    ensures
        r == pids_named_spec(procs@, name@).len(),
{
    let v = pids_named(procs, name);
    v.len()
}

/// The name is one of `names`, exactly.
pub open spec fn is_one_of(name: Seq<char>, names: Seq<&str>) -> bool {
    exists|j: int| 0 <= j < names.len() && name == (#[trigger] names[j])@
}

/// The name is one of `names`, up to ASCII case.
pub open spec fn is_one_of_any_case(name: Seq<char>, names: Seq<&str>) -> bool {
    exists|j: int| 0 <= j < names.len() && eq_ignore_ascii_case_spec(name, (#[trigger] names[j])@)
}

fn name_in(name: &str, names: &[&str], any_case: bool) -> (r: bool)
    ensures
        !any_case ==> r == is_one_of(name@, names@),
        any_case ==> r == is_one_of_any_case(name@, names@),
{
    let mut j: usize = 0;
    while j < names.len()
        invariant
            j <= names.len(),
            !any_case ==> forall|k: int| 0 <= k < j ==> name@ != (#[trigger] names@[k])@,
            any_case ==> forall|k: int|
                0 <= k < j ==> !eq_ignore_ascii_case_spec(name@, (#[trigger] names@[k])@),
        decreases names.len() - j,
    {
        let hit = if any_case {
            eq_ignore_ascii_case(name, names[j])
        } else {
            str_eq(name, names[j])
        };
        if hit {
            return true;
        }
        j += 1;
    }
    false
}

/// Whether any process is named one of `names` (exactly): with
/// `Battle.net.exe`, `Agent.exe` and `Battle.net` this says whether the
/// client runs.
pub fn any_named(procs: &[(u32, String)], names: &[&str]) -> (r: bool)
    ensures
        r == exists|i: int| 0 <= i < procs@.len() && is_one_of((#[trigger] procs@[i]).1@, names@),
{
    let mut i: usize = 0;
    while i < procs.len()
        invariant
            i <= procs.len(),
            forall|k: int| 0 <= k < i ==> !is_one_of((#[trigger] procs@[k]).1@, names@),
        decreases procs.len() - i,
    {
        if name_in(procs[i].1.as_str(), names, false) {
            return true;
        }
        i += 1;
    }
    false
}

/// The pids of the processes to kill by name: those named one of `names`
/// (exactly, or up to ASCII case when `any_case`), in list order.
pub open spec fn pids_to_kill_spec(procs: Seq<(u32, String)>, names: Seq<&str>, any_case: bool) -> Seq<u32> {
    procs.filter_map(
        pid_when(
            |n: Seq<char>|
                if any_case {
                    is_one_of_any_case(n, names)
                } else {
                    is_one_of(n, names)
                },
        ),
    )
}

/// The pids of the processes named one of `names` (see `pids_to_kill_spec`).
pub fn pids_to_kill(procs: &[(u32, String)], names: &[&str], any_case: bool) -> (r: Vec<u32>)
    ensures
        r@ == pids_to_kill_spec(procs@, names@, any_case),
{
    let ghost f = pid_when(
        |n: Seq<char>|
            if any_case {
                is_one_of_any_case(n, names@)
            } else {
                is_one_of(n, names@)
            },
    );
    let mut out: Vec<u32> = Vec::new();
    let mut i: usize = 0;
    while i < procs.len()
        invariant
            i <= procs.len(),
            f == pid_when(
                |n: Seq<char>|
                    if any_case {
                        is_one_of_any_case(n, names@)
                    } else {
                        is_one_of(n, names@)
                    },
            ),
            out@ == procs@.take(i as int).filter_map(f),
        decreases procs.len() - i,
    {
        proof {
            procs@.lemma_filter_map_take_succ(f, i as int);
        }
        let ghost o0 = out@;
        if name_in(procs[i].1.as_str(), names, any_case) {
            out.push(procs[i].0);
            assert(out@ == o0 + seq![procs@[i as int].0]);
        } else {
            assert(out@ == o0 + Seq::<u32>::empty());
        }
        i += 1;
    }
    assert(procs@.take(procs.len() as int) == procs@);
    out
}

/// A browser process, by its name in lower case.
pub open spec fn is_browser_name(name: Seq<char>) -> bool {
    contains_spec(lowercase(name), "chrome"@) || contains_spec(lowercase(name), "msedge"@)
}

/// Whether a process name is that of Chrome or Edge (compared in lower case).
pub fn is_browser_process_name(name: &str) -> (r: bool)
    ensures
        r == is_browser_name(name@),
{
    let lower = to_lowercase(name);
    str_contains(lower.as_str(), "chrome") || str_contains(lower.as_str(), "msedge")
}

/// The name searched for to tell whether a browser of a type runs:
/// `msedge` for `edge`, `chrome` for anything else.
pub open spec fn browser_process_key(browser_type: Seq<char>) -> Seq<char> {
    if browser_type == "edge"@ {
        "msedge"@
    } else {
        "chrome"@
    }
}

/// Whether a browser of the given type runs: some process name holds its
/// key in lower case.
pub fn browser_running(procs: &[(u32, String)], browser_type: &str) -> (r: bool)
    ensures
        r == exists|i: int|
            0 <= i < procs@.len() && contains_spec(
                lowercase((#[trigger] procs@[i]).1@),
                browser_process_key(browser_type@),
            ),
{
    let key = if str_eq(browser_type, "edge") {
        copy_string("msedge")
    } else {
        copy_string("chrome")
    };
    let mut i: usize = 0;
    while i < procs.len()
        invariant
            i <= procs.len(),
            key@ == browser_process_key(browser_type@),
            forall|k: int|
                0 <= k < i ==> !contains_spec(lowercase((#[trigger] procs@[k]).1@), key@),
        decreases procs.len() - i,
    {
        let lower = to_lowercase(procs[i].1.as_str());
        if str_contains(lower.as_str(), key.as_str()) {
            return true;
        }
        i += 1;
    }
    false
}

/// Whether the game process `pid` still runs (listed under `D2R.exe`).
pub fn game_process_alive(procs: &[(u32, String)], pid: u32) -> (r: bool)
    ensures
        r == exists|i: int|
            0 <= i < procs@.len() && (#[trigger] procs@[i]).0 == pid && procs@[i].1@ == "D2R.exe"@,
{
    let mut i: usize = 0;
    while i < procs.len()
        invariant
            i <= procs.len(),
            forall|k: int|
                0 <= k < i ==> !((#[trigger] procs@[k]).0 == pid && procs@[k].1@ == "D2R.exe"@),
        decreases procs.len() - i,
    {
        if procs[i].0 == pid && str_eq(procs[i].1.as_str(), "D2R.exe") {
            return true;
        }
        i += 1;
    }
    false
}

// ---------------------------------------------------------------------------
// The TCP table
// ---------------------------------------------------------------------------

/// A row of the IPv4 TCP table, the remote port already in host order.
#[derive(Debug, Clone, Copy)]
pub struct TcpRow {
    pub state: u32,
    pub remote_addr: u32,
    pub remote_port: u16,
    pub owning_pid: u32,
}

/// The row shows the game process `pid` connected to a lobby server: an
/// established connection (state 5) to port 1119 of an address that is
/// neither zero nor the loopback address.
pub open spec fn is_lobby_connection(row: TcpRow, pid: u32) -> bool {
    &&& row.owning_pid == pid
    &&& row.state == 5
    &&& row.remote_port == 1119
    &&& row.remote_addr != 0
    &&& row.remote_addr != 0x0100_007f
    &&& row.remote_addr != 0x7f00_0001
}

/// Whether the game process `pid` has reached the lobby server.
pub fn lobby_connected(rows: &[TcpRow], pid: u32) -> (r: bool)
    ensures
        r == exists|i: int| 0 <= i < rows@.len() && is_lobby_connection(#[trigger] rows@[i], pid),
{
    let mut i: usize = 0;
    while i < rows.len()
        invariant
            i <= rows.len(),
            forall|k: int| 0 <= k < i ==> !is_lobby_connection(#[trigger] rows@[k], pid),
        decreases rows.len() - i,
    {
        let row = &rows[i];
        if row.owning_pid == pid && row.state == 5 && row.remote_port == 1119 && row.remote_addr != 0
            && row.remote_addr != 0x0100_007f && row.remote_addr != 0x7f00_0001 {
            assert(is_lobby_connection(rows@[i as int], pid));
            return true;
        }
        i += 1;
    }
    false
}

// ---------------------------------------------------------------------------
// Top-level windows
// ---------------------------------------------------------------------------

/// A top-level window as the system lists it.
#[derive(Debug, Clone)]
pub struct WindowInfo {
    pub hwnd: isize,
    pub pid: u32,
    pub visible: bool,
    pub title: String,
    pub class_name: String,
}

/// The position of the first window of which `p` holds, or the length when
/// there is none.
pub open spec fn first_at(s: Seq<WindowInfo>, p: spec_fn(WindowInfo) -> bool) -> int
    decreases s.len(),
{
    if s.len() == 0 {
        0
    } else if p(s[0]) {
        0
    } else {
        1 + first_at(s.drop_first(), p)
    }
}

/// The position of the last window of which `p` holds, or -1.
pub open spec fn last_at(s: Seq<WindowInfo>, p: spec_fn(WindowInfo) -> bool) -> int
    decreases s.len(),
{
    if s.len() == 0 {
        -1
    } else if p(s.last()) {
        s.len() - 1
    } else {
        last_at(s.drop_last(), p)
    }
}

proof fn lemma_first_at(s: Seq<WindowInfo>, p: spec_fn(WindowInfo) -> bool, i: int)
    requires
        0 <= i <= s.len(),
        forall|j: int| 0 <= j < i ==> !p(#[trigger] s[j]),
        i < s.len() ==> p(s[i]),
    ensures
        first_at(s, p) == i,
    decreases i,
{
    if i > 0 {
        let t = s.drop_first();
        assert forall|j: int| 0 <= j < i - 1 implies !p(#[trigger] t[j]) by {
            assert(t[j] == s[j + 1]);
        }
        if i - 1 < t.len() {
            assert(t[i - 1] == s[i]);
        }
        assert(!p(s[0]));
        lemma_first_at(t, p, i - 1);
    }
}

proof fn lemma_first_at_range(s: Seq<WindowInfo>, p: spec_fn(WindowInfo) -> bool)
    ensures
        0 <= first_at(s, p) <= s.len(),
        first_at(s, p) < s.len() ==> p(s[first_at(s, p)]),
    decreases s.len(),
{
    if s.len() > 0 && !p(s[0]) {
        lemma_first_at_range(s.drop_first(), p);
        let k = first_at(s.drop_first(), p);
        if k < s.len() - 1 {
            assert(s.drop_first()[k] == s[k + 1]);
        }
    }
}

proof fn lemma_last_at_range(s: Seq<WindowInfo>, p: spec_fn(WindowInfo) -> bool)
    ensures
        -1 <= last_at(s, p) < s.len(),
    decreases s.len(),
{
    if s.len() > 0 && !p(s.last()) {
        lemma_last_at_range(s.drop_last(), p);
    }
}

proof fn lemma_last_at_step(s: Seq<WindowInfo>, p: spec_fn(WindowInfo) -> bool, i: int)
    requires
        0 <= i < s.len(),
    ensures
        last_at(s.take(i + 1), p) == if p(s[i]) {
            i
        } else {
            last_at(s.take(i), p)
        },
{
    assert(s.take(i + 1).drop_last() == s.take(i));
    assert(s.take(i + 1).last() == s[i]);
}

/// The window chosen by a search that stops at the first window matching
/// `target` and otherwise falls back to the last window matching
/// `fallback` seen on the way; a window handle of zero counts as none.
pub open spec fn pick_window(
    wins: Seq<WindowInfo>,
    target: spec_fn(WindowInfo) -> bool,
    fallback: spec_fn(WindowInfo) -> bool,
) -> Option<isize> {
    let k = first_at(wins, target);
    let d = last_at(wins.take(k), fallback);
    if k < wins.len() && wins[k].hwnd != 0 {
        Some(wins[k].hwnd)
    } else if d >= 0 && wins[d].hwnd != 0 {
        Some(wins[d].hwnd)
    } else {
        None
    }
}

/// A visible window with a title.
pub open spec fn titled(w: WindowInfo) -> bool {
    w.visible && w.title@.len() > 0
}

/// A window still carrying the game's own title.
pub open spec fn is_game_titled(w: WindowInfo) -> bool {
    titled(w) && contains_spec(w.title@, "Diablo II: Resurrected"@)
}

/// A window whose title, in lower case, holds `wanted` in lower case.
pub open spec fn title_mentions(w: WindowInfo, wanted: Seq<char>) -> bool {
    titled(w) && contains_spec(lowercase(w.title@), lowercase(wanted))
}

/// A window whose title is exactly `wanted`.
pub open spec fn title_is(w: WindowInfo, wanted: Seq<char>) -> bool {
    titled(w) && w.title@ == wanted
}

/// A visible window of the process `pid`.
pub open spec fn window_of(w: WindowInfo, pid: u32) -> bool {
    w.visible && w.pid == pid
}

/// `is_game_titled` as a predicate.
pub open spec fn game_titled_fn() -> spec_fn(WindowInfo) -> bool {
    |w: WindowInfo| is_game_titled(w)
}

/// `title_is` as a predicate.
pub open spec fn title_is_fn(wanted: Seq<char>) -> spec_fn(WindowInfo) -> bool {
    |w: WindowInfo| title_is(w, wanted)
}

/// `title_mentions` as a predicate.
pub open spec fn title_mentions_fn(wanted: Seq<char>) -> spec_fn(WindowInfo) -> bool {
    |w: WindowInfo| title_mentions(w, wanted)
}

/// `window_of` as a predicate.
pub open spec fn window_of_fn(pid: u32) -> spec_fn(WindowInfo) -> bool {
    |w: WindowInfo| window_of(w, pid)
}

/// Finds a window the way the system's window enumeration is walked: by
/// the first window for which `is_target` returns true, else the last one
/// for which `is_fallback` was true before it.
fn search_windows(wins: &[WindowInfo], mode: u8, wanted: &str, pid: u32) -> (r: (Option<usize>, Option<usize>))
    requires
        mode <= 2,
    ensures
        ({
            let t = search_target(mode, wanted@, pid);
            let k = first_at(wins@, t);
            let d = last_at(wins@.take(k), game_titled_fn());
            &&& 0 <= k <= wins@.len()
            &&& -1 <= d < k
            &&& (k < wins@.len() ==> (r.0 matches Some(x) && x == k))
            &&& (k == wins@.len() ==> r.0 is None)
            &&& (d >= 0 ==> (r.1 matches Some(y) && y == d))
            &&& (d < 0 ==> r.1 is None)
        }),
{
    let wanted_lower = to_lowercase(wanted);
    let ghost t = search_target(mode, wanted@, pid);
    proof {
        lemma_first_at_range(wins@, t);
        lemma_last_at_range(wins@.take(first_at(wins@, t)), game_titled_fn());
    }
    let ghost fb = game_titled_fn();
    let mut diablo: Option<usize> = None;
    let mut i: usize = 0;
    assert(wins@.take(0).len() == 0);
    while i < wins.len()
        invariant
            i <= wins.len(),
            mode <= 2,
            t == search_target(mode, wanted@, pid),
            fb == game_titled_fn(),
            wanted_lower@ == lowercase(wanted@),
            forall|j: int| 0 <= j < i ==> !t(#[trigger] wins@[j]),
            last_at(wins@.take(i as int), fb) >= 0 ==> (diablo matches Some(y) && y == last_at(
                wins@.take(i as int),
                fb,
            )),
            last_at(wins@.take(i as int), fb) < 0 ==> diablo is None,
            last_at(wins@.take(i as int), fb) < i,
        decreases wins.len() - i,
    {
        let w = &wins[i];
        let has_title = w.visible && !w.title.as_str().is_empty();
        let hit = if mode == 0 {
            has_title && str_eq(w.title.as_str(), wanted)
        } else if mode == 1 {
            if has_title {
                let tl = to_lowercase(w.title.as_str());
                str_contains(tl.as_str(), wanted_lower.as_str())
            } else {
                false
            }
        } else {
            w.visible && w.pid == pid
        };
        assert(hit == t(wins@[i as int]));
        if hit {
            proof {
                lemma_first_at(wins@, t, i as int);
                assert(first_at(wins@, t) == i);
                lemma_last_at_range(wins@.take(i as int), fb);
            }
            return (Some(i), diablo);
        }
        let is_diablo = has_title && str_contains(w.title.as_str(), "Diablo II: Resurrected");
        proof {
            lemma_last_at_step(wins@, fb, i as int);
            assert(is_diablo == fb(wins@[i as int]));
        }
        if is_diablo {
            diablo = Some(i);
        }
        i += 1;
    }
    proof {
        lemma_first_at(wins@, t, i as int);
        assert(wins@.take(i as int) == wins@.take(wins@.len() as int));
        lemma_last_at_range(wins@.take(i as int), fb);
    }
    (None, diablo)
}

/// The window searched for: by exact title (mode 0), by title in lower
/// case (mode 1), or by process (mode 2).
pub open spec fn search_target(mode: u8, wanted: Seq<char>, pid: u32) -> spec_fn(WindowInfo) -> bool {
    if mode == 0 {
        title_is_fn(wanted)
    } else if mode == 1 {
        title_mentions_fn(wanted)
    } else {
        window_of_fn(pid)
    }
}

fn handle_of(wins: &[WindowInfo], found: (Option<usize>, Option<usize>)) -> (r: Option<isize>)
    requires
        found.0 matches Some(k) ==> k < wins@.len(),
        found.1 matches Some(d) ==> d < wins@.len(),
    ensures
        r == (if found.0 is Some && wins@[found.0->0 as int].hwnd != 0 {
            Some(wins@[found.0->0 as int].hwnd)
        } else if found.1 is Some && wins@[found.1->0 as int].hwnd != 0 {
            Some(wins@[found.1->0 as int].hwnd)
        } else {
            None
        }),
{
    if let Some(k) = found.0 {
        if wins[k].hwnd != 0 {
            return Some(wins[k].hwnd);
        }
    }
    if let Some(d) = found.1 {
        if wins[d].hwnd != 0 {
            return Some(wins[d].hwnd);
        }
    }
    None
}

/// The game window of an account whose process is unknown: the window
/// titled exactly `title`, else the last window still titled as the game
/// seen before it.
pub fn find_game_hwnd_by_title(wins: &[WindowInfo], title: &str) -> (r: Option<isize>)
    ensures
        r == pick_window(wins@, title_is_fn(title@), game_titled_fn()),
{
    let found = search_windows(wins, 0, title, 0);
    assert(search_target(0, title@, 0) == title_is_fn(title@));
    proof {
        let k = first_at(wins@, title_is_fn(title@));
        let d = last_at(wins@.take(k), game_titled_fn());
        if found.0 is Some {
            assert(found.0->0 as int == k);
        }
        if found.1 is Some {
            assert(found.1->0 as int == d);
        }
    }
    handle_of(wins, found)
}

/// The window to bring to the front for `window_title`: the first window
/// whose title mentions it (in lower case), else the last one still titled
/// as the game seen before it; none for an empty title.
pub fn window_to_raise(wins: &[WindowInfo], window_title: &str) -> (r: Option<isize>)
    ensures
        window_title@.len() == 0 ==> r is None,
        window_title@.len() > 0 ==> r == pick_window(
            wins@,
            title_mentions_fn(window_title@),
            game_titled_fn(),
        ),
{
    if window_title.is_empty() {
        return None;
    }
    let found = search_windows(wins, 1, window_title, 0);
    assert(search_target(1, window_title@, 0) == title_mentions_fn(window_title@));
    proof {
        let k = first_at(wins@, title_mentions_fn(window_title@));
        let d = last_at(wins@.take(k), game_titled_fn());
        if found.0 is Some {
            assert(found.0->0 as int == k);
        }
        if found.1 is Some {
            assert(found.1->0 as int == d);
        }
    }
    handle_of(wins, found)
}

/// The game window of process `pid`: its first visible window; none for
/// pid 0.
pub fn find_game_hwnd(wins: &[WindowInfo], pid: u32) -> (r: Option<isize>)
    ensures
        pid == 0 ==> r is None,
        pid != 0 ==> r == (if first_at(wins@, window_of_fn(pid)) < wins@.len() && wins@[first_at(
            wins@,
            window_of_fn(pid),
        )].hwnd != 0 {
            Some(wins@[first_at(wins@, window_of_fn(pid))].hwnd)
        } else {
            None
        }),
{
    if pid == 0 {
        return None;
    }
    let found = search_windows(wins, 2, "", pid);
    match found.0 {
        Some(k) => {
            if wins[k].hwnd != 0 {
                Some(wins[k].hwnd)
            } else {
                None
            }
        },
        None => None,
    }
}

/// The window to move for an account known only by its title: the first
/// window titled exactly `title`.
pub fn window_titled(wins: &[WindowInfo], title: &str) -> (r: Option<isize>)
    ensures
        r == (if first_at(wins@, title_is_fn(title@)) < wins@.len() {
            Some(wins@[first_at(wins@, title_is_fn(title@))].hwnd)
        } else {
            None
        }),
{
    let found = search_windows(wins, 0, title, 0);
    match found.0 {
        Some(k) => Some(wins[k].hwnd),
        None => None,
    }
}

/// The window of the game process `pid` to rename: its first visible
/// window whose title holds `diablo` in lower case.
pub open spec fn renamable(w: WindowInfo, pid: u32) -> bool {
    w.pid == pid && titled(w) && contains_spec(lowercase(w.title@), "diablo"@)
}

/// The game window to give the account's name (see `renamable`).
pub fn window_to_rename(wins: &[WindowInfo], pid: u32) -> (r: Option<isize>)
    ensures
        r == (if first_at(wins@, |w: WindowInfo| renamable(w, pid)) < wins@.len() {
            Some(wins@[first_at(wins@, |w: WindowInfo| renamable(w, pid))].hwnd)
        } else {
            None
        }),
{
    let ghost t = |w: WindowInfo| renamable(w, pid);
    let mut i: usize = 0;
    while i < wins.len()
        invariant
            i <= wins.len(),
            t == (|w: WindowInfo| renamable(w, pid)),
            forall|j: int| 0 <= j < i ==> !t(#[trigger] wins@[j]),
        decreases wins.len() - i,
    {
        let w = &wins[i];
        let hit = if w.pid == pid && w.visible && !w.title.as_str().is_empty() {
            let tl = to_lowercase(w.title.as_str());
            str_contains(tl.as_str(), "diablo")
        } else {
            false
        };
        assert(hit == t(wins@[i as int]));
        if hit {
            proof {
                lemma_first_at(wins@, t, i as int);
            }
            return Some(w.hwnd);
        }
        i += 1;
    }
    proof {
        lemma_first_at(wins@, t, i as int);
    }
    None
}

fn contains_u32(v: &[u32], x: u32) -> (r: bool)
    ensures
        r == v@.contains(x),
{
    let mut i: usize = 0;
    while i < v.len()
        invariant
            i <= v.len(),
            forall|j: int| 0 <= j < i ==> v@[j] != x,
        decreases v.len() - i,
    {
        if v[i] == x {
            assert(v@[i as int] == x);
            return true;
        }
        i += 1;
    }
    false
}

/// A visible window of one of the processes `pids`.
pub open spec fn window_of_any(w: WindowInfo, pids: Seq<u32>) -> bool {
    w.visible && w.pid != 0 && pids.contains(w.pid)
}

/// The client's window: the first visible window of a `Battle.net.exe`
/// process.
pub fn find_bnet_window(wins: &[WindowInfo], bnet_pids: &[u32]) -> (r: Option<isize>)
    ensures
        r == (if first_at(wins@, |w: WindowInfo| window_of_any(w, bnet_pids@)) < wins@.len()
            && wins@[first_at(wins@, |w: WindowInfo| window_of_any(w, bnet_pids@))].hwnd != 0 {
            Some(wins@[first_at(wins@, |w: WindowInfo| window_of_any(w, bnet_pids@))].hwnd)
        } else {
            None
        }),
{
    let ghost t = |w: WindowInfo| window_of_any(w, bnet_pids@);
    let mut i: usize = 0;
    while i < wins.len()
        invariant
            i <= wins.len(),
            t == (|w: WindowInfo| window_of_any(w, bnet_pids@)),
            forall|j: int| 0 <= j < i ==> !t(#[trigger] wins@[j]),
        decreases wins.len() - i,
    {
        let w = &wins[i];
        let hit = w.visible && w.pid != 0 && contains_u32(bnet_pids, w.pid);
        if hit {
            proof {
                lemma_first_at(wins@, t, i as int);
            }
            return if w.hwnd != 0 {
                Some(w.hwnd)
            } else {
                None
            };
        }
        i += 1;
    }
    proof {
        lemma_first_at(wins@, t, i as int);
    }
    None
}

/// A visible Chromium-based browser window.
pub open spec fn is_chrome_window(w: WindowInfo) -> bool {
    w.visible && w.class_name@ == "Chrome_WidgetWin_1"@
}

/// The handles of the visible Chrome and Edge windows, in list order.
pub fn chrome_windows(wins: &[WindowInfo]) -> (r: Vec<isize>)
    ensures
        r@ == wins@.filter_map(|w: WindowInfo| if is_chrome_window(w) { Some(w.hwnd) } else { None }),
{
    let ghost f = |w: WindowInfo| if is_chrome_window(w) { Some(w.hwnd) } else { None };
    let mut out: Vec<isize> = Vec::new();
    let mut i: usize = 0;
    while i < wins.len()
        invariant
            i <= wins.len(),
            f == (|w: WindowInfo| if is_chrome_window(w) { Some(w.hwnd) } else { None }),
            out@ == wins@.take(i as int).filter_map(f),
        decreases wins.len() - i,
    {
        proof {
            wins@.lemma_filter_map_take_succ(f, i as int);
        }
        let ghost o0 = out@;
        if wins[i].visible && str_eq(wins[i].class_name.as_str(), "Chrome_WidgetWin_1") {
            out.push(wins[i].hwnd);
            assert(out@ == o0 + seq![wins@[i as int].hwnd]);
        } else {
            assert(out@ == o0 + Seq::<isize>::empty());
        }
        i += 1;
    }
    assert(wins@.take(wins.len() as int) == wins@);
    out
}

/// The first handle of `current` not among `before`: the browser window
/// that the launch opened.
pub fn new_window(current: &[isize], before: &[isize]) -> (r: Option<isize>)
    ensures
        match r {
            Some(h) => exists|i: int|
                0 <= i < current@.len() && current@[i] == h && !before@.contains(h) && forall|j: int|
                    0 <= j < i ==> before@.contains(#[trigger] current@[j]),
            None => forall|i: int| 0 <= i < current@.len() ==> before@.contains(#[trigger] current@[i]),
        },
{
    let mut i: usize = 0;
    while i < current.len()
        invariant
            i <= current.len(),
            forall|j: int| 0 <= j < i ==> before@.contains(#[trigger] current@[j]),
        decreases current.len() - i,
    {
        let h = current[i];
        let mut known = false;
        let mut k: usize = 0;
        while k < before.len()
            invariant
                k <= before.len(),
                known == exists|m: int| 0 <= m < k && before@[m] == h,
            decreases before.len() - k,
        {
            if before[k] == h {
                known = true;
            }
            k += 1;
        }
        if !known {
            return Some(h);
        }
        i += 1;
    }
    None
}

/// The name of the process `pid` in a process list: that of its first entry.
pub open spec fn process_name_of(procs: Seq<(u32, String)>, pid: u32) -> Option<Seq<char>>
    decreases procs.len(),
{
    if procs.len() == 0 {
        None
    } else if procs[0].0 == pid {
        Some(procs[0].1@)
    } else {
        process_name_of(procs.drop_first(), pid)
    }
}

/// A browser window showing a Battle.net or Blizzard page (its title, in
/// lower case, names Battle.net, Blizzard, 战网 or 暴雪) whose process is
/// Chrome or Edge: the login window left open by account setup.
pub open spec fn is_login_browser_window(w: WindowInfo, procs: Seq<(u32, String)>) -> bool {
    let t = lowercase(w.title@);
    &&& w.title@.len() > 0
    &&& (contains_spec(t, "battle.net"@) || contains_spec(t, "blizzard"@) || contains_spec(t, "战网"@)
        || contains_spec(t, "暴雪"@))
    &&& w.class_name@ == "Chrome_WidgetWin_1"@
    &&& w.pid != 0
    &&& process_name_of(procs, w.pid) matches Some(n) && is_browser_name(n)
}

fn process_name_lookup(procs: &[(u32, String)], pid: u32) -> (r: Option<String>)
    ensures
        match process_name_of(procs@, pid) {
            Some(n) => r matches Some(x) && x@ == n,
            None => r is None,
        },
{
    let mut i: usize = 0;
    assert(procs@.skip(0) == procs@);
    while i < procs.len()
        invariant
            i <= procs.len(),
            process_name_of(procs@, pid) == process_name_of(procs@.skip(i as int), pid),
        decreases procs.len() - i,
    {
        proof {
            assert(procs@.skip(i as int)[0] == procs@[i as int]);
            assert(procs@.skip(i as int).drop_first() == procs@.skip(i + 1));
        }
        if procs[i].0 == pid {
            return Some(copy_string(procs[i].1.as_str()));
        }
        i += 1;
    }
    None
}

/// The browser login windows to close (see `is_login_browser_window`), in
/// list order.
pub fn login_browser_windows(wins: &[WindowInfo], procs: &[(u32, String)]) -> (r: Vec<isize>)
    ensures
        r@ == wins@.filter_map(
            |w: WindowInfo| if is_login_browser_window(w, procs@) { Some(w.hwnd) } else { None },
        ),
{
    let ghost f = |w: WindowInfo| if is_login_browser_window(w, procs@) { Some(w.hwnd) } else { None };
    let mut out: Vec<isize> = Vec::new();
    let mut i: usize = 0;
    while i < wins.len()
        invariant
            i <= wins.len(),
            f == (|w: WindowInfo|
                if is_login_browser_window(w, procs@) {
                    Some(w.hwnd)
                } else {
                    None
                }),
            out@ == wins@.take(i as int).filter_map(f),
        decreases wins.len() - i,
    {
        proof {
            wins@.lemma_filter_map_take_succ(f, i as int);
        }
        let ghost o0 = out@;
        let w = &wins[i];
        let mut hit = false;
        if !w.title.as_str().is_empty() {
            let t = to_lowercase(w.title.as_str());
            let named = str_contains(t.as_str(), "battle.net") || str_contains(t.as_str(), "blizzard")
                || str_contains(t.as_str(), "战网") || str_contains(t.as_str(), "暴雪");
            if named && str_eq(w.class_name.as_str(), "Chrome_WidgetWin_1") && w.pid != 0 {
                match process_name_lookup(procs, w.pid) {
                    Some(n) => {
                        hit = is_browser_process_name(n.as_str());
                    },
                    None => {},
                }
            }
        }
        assert(hit == is_login_browser_window(wins@[i as int], procs@));
        if hit {
            out.push(w.hwnd);
            assert(out@ == o0 + seq![wins@[i as int].hwnd]);
        } else {
            assert(out@ == o0 + Seq::<isize>::empty());
        }
        i += 1;
    }
    assert(wins@.take(wins.len() as int) == wins@);
    out
}

/// A visible, titled window of one of the game processes.
pub open spec fn is_game_window(w: WindowInfo, game_pids: Seq<u32>) -> bool {
    window_of_any(w, game_pids) && w.title@.len() > 0
}

/// The titles and processes of the game windows, in list order.
pub fn game_windows(wins: &[WindowInfo], game_pids: &[u32]) -> (r: Vec<(String, u32)>)
    ensures
        r@.map_values(|x: (String, u32)| (x.0@, x.1)) == wins@.filter_map(
            |w: WindowInfo| if is_game_window(w, game_pids@) { Some((w.title@, w.pid)) } else { None },
        ),
{
    let ghost f = |w: WindowInfo|
        if is_game_window(w, game_pids@) {
            Some((w.title@, w.pid))
        } else {
            None
        };
    let mut out: Vec<(String, u32)> = Vec::new();
    let mut i: usize = 0;
    while i < wins.len()
        invariant
            i <= wins.len(),
            f == (|w: WindowInfo|
                if is_game_window(w, game_pids@) {
                    Some((w.title@, w.pid))
                } else {
                    None
                }),
            out@.map_values(|x: (String, u32)| (x.0@, x.1)) == wins@.take(i as int).filter_map(f),
        decreases wins.len() - i,
    {
        proof {
            wins@.lemma_filter_map_take_succ(f, i as int);
        }
        let ghost o0 = out@;
        let w = &wins[i];
        if w.visible && w.pid != 0 && contains_u32(game_pids, w.pid) && !w.title.as_str().is_empty() {
            out.push((copy_string(w.title.as_str()), w.pid));
            assert(out@.map_values(|x: (String, u32)| (x.0@, x.1)) == o0.map_values(
                |x: (String, u32)| (x.0@, x.1),
            ) + seq![(wins@[i as int].title@, wins@[i as int].pid)]);
        } else {
            assert(out@.map_values(|x: (String, u32)| (x.0@, x.1)) == o0.map_values(
                |x: (String, u32)| (x.0@, x.1),
            ) + Seq::<(Seq<char>, u32)>::empty());
        }
        i += 1;
    }
    assert(wins@.take(wins.len() as int) == wins@);
    out
}

/// The name an account's game window is recognized by: its nickname, or
/// its id without one.
pub open spec fn window_name(account: (String, String)) -> Seq<char> {
    if account.1@.len() == 0 {
        account.0@
    } else {
        account.1@
    }
}

/// The first game window whose title, in lower case, holds the name in
/// lower case.
pub open spec fn first_window_naming(games: Seq<(String, u32)>, name: Seq<char>) -> Option<u32>
    decreases games.len(),
{
    if games.len() == 0 {
        None
    } else if contains_spec(lowercase(games[0].0@), lowercase(name)) {
        Some(games[0].1)
    } else {
        first_window_naming(games.drop_first(), name)
    }
}

fn first_naming(games: &[(String, u32)], lowered: &Vec<String>, name_lower: &String, Ghost(name): Ghost<Seq<char>>) -> (r: Option<u32>)
    requires
        lowered@.len() == games@.len(),
        forall|j: int| 0 <= j < games@.len() ==> (#[trigger] lowered@[j])@ == lowercase(games@[j].0@),
        name_lower@ == lowercase(name),
    ensures
        r == first_window_naming(games@, name),
{
    let mut k: usize = 0;
    assert(games@.skip(0) == games@);
    while k < games.len()
        invariant
            k <= games.len(),
            lowered@.len() == games@.len(),
            forall|j: int| 0 <= j < games@.len() ==> (#[trigger] lowered@[j])@ == lowercase(
                games@[j].0@,
            ),
            name_lower@ == lowercase(name),
            first_window_naming(games@, name) == first_window_naming(games@.skip(k as int), name),
        decreases games.len() - k,
    {
        proof {
            assert(games@.skip(k as int)[0] == games@[k as int]);
            assert(games@.skip(k as int).drop_first() == games@.skip(k + 1));
        }
        if str_contains(lowered[k].as_str(), name_lower.as_str()) {
            return Some(games[k].1);
        }
        k += 1;
    }
    None
}

/// The running accounts, from accounts given as id and nickname and the
/// game windows given as title and process: each account whose name some
/// window mentions, with the process of the first such window, in account
/// order.
pub fn match_running_accounts(accounts: &[(String, String)], games: &[(String, u32)]) -> (r: Vec<(String, u32)>)
    ensures
        r@.map_values(|x: (String, u32)| (x.0@, x.1)) == accounts@.filter_map(
            |a: (String, String)|
                match first_window_naming(games@, window_name(a)) {
                    Some(pid) => Some((a.0@, pid)),
                    None => None,
                },
        ),
{
    let ghost f = |a: (String, String)|
        match first_window_naming(games@, window_name(a)) {
            Some(pid) => Some((a.0@, pid)),
            None => None,
        };
    let mut lowered: Vec<String> = Vec::new();
    let mut g: usize = 0;
    while g < games.len()
        invariant
            g <= games.len(),
            lowered@.len() == g,
            forall|j: int| 0 <= j < g ==> (#[trigger] lowered@[j])@ == lowercase(games@[j].0@),
        decreases games.len() - g,
    {
        lowered.push(to_lowercase(games[g].0.as_str()));
        g += 1;
    }
    let mut out: Vec<(String, u32)> = Vec::new();
    let mut i: usize = 0;
    while i < accounts.len()
        invariant
            i <= accounts.len(),
            lowered@.len() == games@.len(),
            forall|j: int| 0 <= j < games@.len() ==> (#[trigger] lowered@[j])@ == lowercase(
                games@[j].0@,
            ),
            f == (|a: (String, String)|
                match first_window_naming(games@, window_name(a)) {
                    Some(pid) => Some((a.0@, pid)),
                    None => None,
                }),
            out@.map_values(|x: (String, u32)| (x.0@, x.1)) == accounts@.take(i as int).filter_map(f),
        decreases accounts.len() - i,
    {
        proof {
            accounts@.lemma_filter_map_take_succ(f, i as int);
        }
        let ghost o0 = out@;
        let a = &accounts[i];
        let name = if a.1.as_str().is_empty() {
            copy_string(a.0.as_str())
        } else {
            copy_string(a.1.as_str())
        };
        let name_lower = to_lowercase(name.as_str());
        let found = first_naming(games, &lowered, &name_lower, Ghost(name@));
        assert(found == first_window_naming(games@, window_name(accounts@[i as int])));
        match found {
            Some(pid) => {
                out.push((copy_string(a.0.as_str()), pid));
                assert(out@.map_values(|x: (String, u32)| (x.0@, x.1)) == o0.map_values(
                    |x: (String, u32)| (x.0@, x.1),
                ) + seq![(accounts@[i as int].0@, pid)]);
            },
            None => {
                assert(out@.map_values(|x: (String, u32)| (x.0@, x.1)) == o0.map_values(
                    |x: (String, u32)| (x.0@, x.1),
                ) + Seq::<(Seq<char>, u32)>::empty());
            },
        }
        i += 1;
    }
    assert(accounts@.take(accounts.len() as int) == accounts@);
    out
}

// ---------------------------------------------------------------------------
// The latest release
// ---------------------------------------------------------------------------

/// The text of a value that is a string.
pub open spec fn str_value(v: Option<JsonValue>) -> Option<Seq<char>> {
    match v {
        Some(JsonValue::Str(s)) => Some(s@),
        _ => None,
    }
}

/// The items of a value that is an array; none otherwise.
pub open spec fn array_items(v: Option<JsonValue>) -> Seq<JsonValue> {
    match v {
        Some(JsonValue::Array(a)) => a@,
        _ => Seq::empty(),
    }
}

/// An installer asset of the other build flavour is skipped: an asset
/// belongs to the lite build when its name, in lower case, holds `lite`.
pub open spec fn asset_flavour_fits(lower_name: Seq<char>, lite_build: bool) -> bool {
    contains_spec(lower_name, "lite"@) == lite_build
}

/// An NSIS installer: a `.exe` whose name holds `setup`, `installer` or `nsis`.
pub open spec fn is_nsis_name(lower_name: Seq<char>) -> bool {
    ends_with_spec(lower_name, ".exe"@) && (contains_spec(lower_name, "setup"@) || contains_spec(
        lower_name,
        "installer"@,
    ) || contains_spec(lower_name, "nsis"@))
}

/// The download links of the first MSI and the first NSIS installer among
/// the release assets that fit the build flavour, read in order.
pub open spec fn installer_pick(assets: Seq<JsonValue>, lite_build: bool) -> (Option<Seq<char>>, Option<Seq<char>>)
    decreases assets.len(),
{
    if assets.len() == 0 {
        (None, None)
    } else {
        let prev = installer_pick(assets.drop_last(), lite_build);
        let a = assets.last();
        match str_value(field(a, "name"@)) {
            None => prev,
            Some(name) => {
                let lower = lowercase(name);
                if !asset_flavour_fits(lower, lite_build) {
                    prev
                } else {
                    let url = str_value(field(a, "browser_download_url"@));
                    (
                        if ends_with_spec(lower, ".msi"@) && prev.0 is None {
                            url
                        } else {
                            prev.0
                        },
                        if is_nsis_name(lower) && prev.1 is None {
                            url
                        } else {
                            prev.1
                        },
                    )
                }
            },
        }
    }
}

/// The tag without its leading `v`s.
pub open spec fn trim_leading_v(s: Seq<char>) -> Seq<char>
    decreases s.len(),
{
    if s.len() > 0 && s[0] == 'v' {
        trim_leading_v(s.drop_first())
    } else {
        s
    }
}

fn get_str(v: &JsonValue, key: &str) -> (r: Option<String>)
    ensures
        match str_value(field(*v, key@)) {
            Some(t) => r matches Some(x) && x@ == t,
            None => r is None,
        },
{
    match v {
        JsonValue::Object(e) => match find_key(e, chars_of(key).as_slice()) {
            Some(i) => match &e[i].1 {
                JsonValue::Str(s) => Some(copy_string(s.as_str())),
                _ => None,
            },
            None => None,
        },
        _ => None,
    }
}

fn trim_v(s: &str) -> (r: String)
    ensures
        r@ == trim_leading_v(s@),
{
    let v = chars_of(s);
    let mut i: usize = 0;
    assert(v@.skip(0) == v@);
    while i < v.len() && v[i] == 'v'
        invariant
            i <= v.len(),
            trim_leading_v(s@) == trim_leading_v(v@.skip(i as int)),
            v@ == s@,
        decreases v.len() - i,
    {
        proof {
            assert(v@.skip(i as int)[0] == 'v');
            assert(v@.skip(i as int).drop_first() == v@.skip(i + 1));
        }
        i += 1;
    }
    let mut out = String::new();
    let mut j = i;
    while j < v.len()
        invariant
            i <= j <= v.len(),
            out@ == v@.subrange(i as int, j as int),
        decreases v.len() - j,
    {
        crate::text::push_char(&mut out, v[j]);
        assert(v@.subrange(i as int, j + 1) == v@.subrange(i as int, j as int).push(v@[j as int]));
        j += 1;
    }
    assert(v@.subrange(i as int, v.len() as int) == v@.skip(i as int));
    out
}

/// What the release information comes to (see `release_info`).
pub open spec fn release_result(json: JsonValue, lite_build: bool, r: Result<CloudVersionInfo, String>) -> bool {
        ({
            let tag = str_value(field(json, "tag_name"@));
            let pick = installer_pick(array_items(field(json, "assets"@)), lite_build);
            let url = if pick.1 is Some {
                pick.1
            } else {
                pick.0
            };
            match tag {
                None => r matches Err(e) && e@ == "未找到 tag_name 字段"@,
                Some(t) => match url {
                    None => r matches Err(e) && e@
                        == "未在 Release 中找到安装包资产，预期 NSIS .exe 或 .msi 安装器"@,
                    Some(u) => r matches Ok(info) && info.version@ == trim_leading_v(t)
                        && info.download_url@ == u,
                },
            }
        })
}

/// Reads the latest release as the release service describes it: its tag
/// (without leading `v`s) is the version, and the installer is the NSIS one
/// if there is one, else the MSI one, among the assets that fit the build
/// flavour.  A missing tag or installer is an error.
pub fn release_info(json: &JsonValue, lite_build: bool) -> (r: Result<CloudVersionInfo, String>)
    ensures
        release_result(*json, lite_build, r),
{
    let tag = match get_str(json, "tag_name") {
        Some(t) => t,
        None => {
            return Err(copy_string("未找到 tag_name 字段"));
        },
    };
    let mut msi: Option<String> = None;
    let mut nsis: Option<String> = None;
    let ghost items = array_items(field(*json, "assets"@));
    let empty: Vec<JsonValue> = Vec::new();
    let assets: &Vec<JsonValue> = match json {
        JsonValue::Object(e) => match find_key(e, chars_of("assets").as_slice()) {
            Some(i) => match &e[i].1 {
                JsonValue::Array(a) => a,
                _ => &empty,
            },
            None => &empty,
        },
        _ => &empty,
    };
    assert(assets@ == items);
    let mut i: usize = 0;
    while i < assets.len()
        invariant
            i <= assets.len(),
            ({
                let p = installer_pick(assets@.take(i as int), lite_build);
                &&& (match p.0 {
                    Some(u) => msi matches Some(x) && x@ == u,
                    None => msi is None,
                })
                &&& (match p.1 {
                    Some(u) => nsis matches Some(x) && x@ == u,
                    None => nsis is None,
                })
            }),
        decreases assets.len() - i,
    {
        let a = &assets[i];
        proof {
            assert(assets@.take(i + 1).drop_last() == assets@.take(i as int));
            assert(assets@.take(i + 1).last() == assets@[i as int]);
        }
        if let Some(name) = get_str(a, "name") {
            let lower = to_lowercase(name.as_str());
            let lite_asset = str_contains(lower.as_str(), "lite");
            if lite_build == lite_asset {
                let url = get_str(a, "browser_download_url");
                let lc = chars_of(lower.as_str());
                let is_msi = chars_end_with(lc.as_slice(), chars_of(".msi").as_slice());
                let is_exe = chars_end_with(lc.as_slice(), chars_of(".exe").as_slice());
                let nsis_like = is_exe && (str_contains(lower.as_str(), "setup") || str_contains(
                    lower.as_str(),
                    "installer",
                ) || str_contains(lower.as_str(), "nsis"));
                if is_msi && msi.is_none() {
                    msi = match &url {
                        Some(u) => Some(copy_string(u.as_str())),
                        None => None,
                    };
                }
                if nsis_like && nsis.is_none() {
                    nsis = url;
                }
            }
        }
        i += 1;
    }
    assert(assets@.take(assets.len() as int) == assets@);
    let download_url = match nsis {
        Some(u) => u,
        None => match msi {
            Some(u) => u,
            None => {
                return Err(copy_string("未在 Release 中找到安装包资产，预期 NSIS .exe 或 .msi 安装器"));
            },
        },
    };
    Ok(CloudVersionInfo { version: trim_v(tag.as_str()), download_url })
}


/// Reads the reply of the release service: its text must be JSON (else the
/// error names the parser's message and the reply), then the release is
/// read as `release_info` does.
pub fn release_from_response(text: &str, lite_build: bool) -> (r: Result<CloudVersionInfo, String>)
    ensures
        match json_of_text(text@) {
            None => r matches Err(e) && e@ == "解析 JSON 失败: "@ + json_error_of_text(text@) + ", 响应内容: "@
                + text@,
            Some(doc) => release_result(doc, lite_build, r),
        },
{
    match parse_json_text(text) {
        Ok(doc) => release_info(&doc, lite_build),
        Err(e) => {
            let mut m = copy_string("解析 JSON 失败: ");
            let ev = chars_of(e.as_str());
            crate::text::push_all(&mut m, ev.as_slice());
            let sep = chars_of(", 响应内容: ");
            crate::text::push_all(&mut m, sep.as_slice());
            let tv = chars_of(text);
            crate::text::push_all(&mut m, tv.as_slice());
            Err(m)
        },
    }
}

} // verus!
