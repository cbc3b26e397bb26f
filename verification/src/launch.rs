//! Launching accounts: the results reported for each account, the queue that
//! launches them one after another, and the decisions taken while the
//! Battle.net client and the game start up.
//!
//! The waiting, the processes and the registry are handled by the caller;
//! each decision it needs is a function here from what it saw to what to do.
use vstd::prelude::*;
use std::collections::HashSet;
use crate::clock::rfc3339_parses;
use crate::account::{default_locale, default_locale_spec, is_token_expired, opt_is, AccountMeta};
use crate::crypto::{hex_decode, hex_decode_outcome, hex_decode_slices_whole_chars, HexOutcome};
use crate::error::{error_text, AppError};
use crate::text::{
    chars_end_with, chars_of, contains_spec, copy_string, ends_with_spec, eq_ignore_ascii_case,
    eq_ignore_ascii_case_spec, is_whitespace, is_ws, lowercase, push_all, push_char, str_contains,
    str_eq, to_lowercase, utf16_decoded, utf16_to_string, utf8_to_string,
};

verus! {

/// What one account's launch came to.
#[derive(Debug, Clone)]
pub struct LaunchResult {
    pub account_id: String,
    pub success: bool,
    pub d2r_pid: Option<u32>,
    pub error: Option<String>,
    pub mutex_killed: bool,
}

/// The message of a launch cancelled by the user.
pub open spec fn cancelled_text() -> Seq<char> {
    "启动已被用户取消"@
}

/// The message of a launch held back because the previous game kept its
/// single-instance mutex.
pub open spec fn paused_text() -> Seq<char> {
    "互斥句柄未清除，已暂停"@
}

/// `r` reports that the launch of `id` failed with `msg`.
pub open spec fn failed_with(r: LaunchResult, id: Seq<char>, msg: Seq<char>) -> bool {
    &&& r.account_id@ == id
    &&& !r.success
    &&& r.d2r_pid is None
    &&& r.error matches Some(e) && e@ == msg
    &&& !r.mutex_killed
}

/// A failed launch of `account_id` with the message `msg`.
pub fn failure(account_id: &str, msg: String) -> (r: LaunchResult)
    ensures
        failed_with(r, account_id@, msg@),
{
    LaunchResult {
        account_id: copy_string(account_id),
        success: false,
        d2r_pid: None,
        error: Some(msg),
        mutex_killed: false,
    }
}

/// A launch of `account_id` cancelled by the user.
pub fn cancelled(account_id: &str) -> (r: LaunchResult)
    ensures
        failed_with(r, account_id@, cancelled_text()),
{
    failure(account_id, copy_string("启动已被用户取消"))
}

/// A launch that stopped because the account's directory could not be used;
/// the error's text becomes the message.
pub fn account_path_error(account_id: &str, err: AppError) -> (r: LaunchResult)
    ensures
        failed_with(r, account_id@, error_text(err)),
{
    failure(account_id, err.message())
}

/// A completed launch: the game runs as `d2r_pid` (none when only the
/// Battle.net client was started).
pub fn succeeded(account_id: &str, d2r_pid: Option<u32>, mutex_killed: bool) -> (r: LaunchResult)
    ensures
        r.account_id@ == account_id@,
        r.success,
        r.d2r_pid == d2r_pid,
        r.error is None,
        r.mutex_killed == mutex_killed,
{
    LaunchResult {
        account_id: copy_string(account_id),
        success: true,
        d2r_pid,
        error: None,
        mutex_killed,
    }
}

// ---------------------------------------------------------------------------
// The launch queue
// ---------------------------------------------------------------------------

/// Accounts launched one after another, with the result of each launched
/// so far.
pub struct LaunchQueue {
    ids: Vec<String>,
    results: Vec<LaunchResult>,
    pause_without_mutex: bool,
}

impl LaunchQueue {
    /// The accounts to launch, in order.
    pub closed spec fn ids(&self) -> Seq<String> {
        self.ids@
    }

    /// The results so far, one per account from the first on.
    pub closed spec fn results(&self) -> Seq<LaunchResult> {
        self.results@
    }

    /// Whether a launch that left the game's mutex in place holds back the
    /// accounts after it.
    pub closed spec fn pauses_without_mutex(&self) -> bool {
        self.pause_without_mutex
    }

    /// There are no more results than accounts, and the `i`-th result is
    /// that of the `i`-th account.
    pub open spec fn wf(&self) -> bool {
        &&& self.results().len() <= self.ids().len()
        &&& forall|i: int|
            0 <= i < self.results().len() ==> (#[trigger] self.results()[i]).account_id@
                == self.ids()[i]@
    }

    /// Every account has its result.
    pub open spec fn done(&self) -> bool {
        self.results().len() == self.ids().len()
    }

    /// A queue of `ids` with no result yet.  `pause_without_mutex` is set for
    /// the full launch, where the game's single-instance mutex must be gone
    /// before the next account can start its game.
    pub fn new(ids: Vec<String>, pause_without_mutex: bool) -> (q: Self)
        ensures
            q.wf(),
            q.ids() == ids@,
            q.results().len() == 0,
            q.pauses_without_mutex() == pause_without_mutex,
    {
        LaunchQueue { ids, results: Vec::new(), pause_without_mutex }
    }

    /// The position of the next account to launch (the number of results).
    pub fn position(&self) -> (r: usize)
        ensures
            r == self.results().len(),
    {
        self.results.len()
    }

    /// The number of accounts.
    pub fn total(&self) -> (r: usize)
        ensures
            r == self.ids().len(),
    {
        self.ids.len()
    }

    /// Whether every account has its result.
    pub fn is_done(&self) -> (r: bool)
        requires
            self.wf(),
        ensures
            r == self.done(),
    {
        self.results.len() >= self.ids.len()
    }

    /// The id of the next account to launch, if any is left.
    pub fn current(&self) -> (r: Option<String>)
        requires
            self.wf(),
        ensures
            self.done() ==> r is None,
            !self.done() ==> (r matches Some(id) && id@ == self.ids()[self.results().len() as int]@),
    {
        if self.results.len() < self.ids.len() {
            Some(copy_string(self.ids[self.results.len()].as_str()))
        } else {
            None
        }
    }

    /// Reports every account not launched yet with `msg`.
    fn fail_rest(&mut self, msg: &str)
        requires
            old(self).wf(),
        ensures
            final(self).wf(),
            final(self).done(),
            final(self).ids() == old(self).ids(),
            final(self).pauses_without_mutex() == old(self).pauses_without_mutex(),
            final(self).results().take(old(self).results().len() as int) == old(self).results(),
            forall|i: int|
                old(self).results().len() <= i < final(self).results().len() ==> failed_with(
                    #[trigger] final(self).results()[i],
                    final(self).ids()[i]@,
                    msg@,
                ),
    {
        let ghost start = self.results@;
        while self.results.len() < self.ids.len()
            invariant
                self.wf(),
                self.ids() == old(self).ids(),
                self.pauses_without_mutex() == old(self).pauses_without_mutex(),
                start == old(self).results(),
                start.len() <= self.results@.len(),
                self.results@.take(start.len() as int) == start,
                forall|i: int|
                    start.len() <= i < self.results@.len() ==> failed_with(
                        #[trigger] self.results@[i],
                        self.ids@[i]@,
                        msg@,
                    ),
            decreases self.ids@.len() - self.results@.len(),
        {
            let i = self.results.len();
            let r = failure(self.ids[i].as_str(), copy_string(msg));
            let ghost before = self.results@;
            self.results.push(r);
            assert(self.results@.take(start.len() as int) == before.take(start.len() as int));
        }
    }

    /// The user cancelled: the accounts not launched yet are all reported as
    /// cancelled, and the queue is done.
    pub fn cancel_rest(&mut self)
        requires
            old(self).wf(),
        ensures
            final(self).wf(),
            final(self).done(),
            final(self).ids() == old(self).ids(),
            final(self).pauses_without_mutex() == old(self).pauses_without_mutex(),
            final(self).results().take(old(self).results().len() as int) == old(self).results(),
            forall|i: int|
                old(self).results().len() <= i < final(self).results().len() ==> failed_with(
                    #[trigger] final(self).results()[i],
                    final(self).ids()[i]@,
                    cancelled_text(),
                ),
    {
        self.fail_rest("启动已被用户取消");
    }

    /// Records the result of the next account's launch, under that account's
    /// id.  When the queue pauses without the mutex and the launch succeeded
    /// without clearing it, every later account is reported as held back and
    /// the queue is done; the answer says whether that happened.
    pub fn record(&mut self, outcome: LaunchResult) -> (paused: bool)
        requires
            old(self).wf(),
            !old(self).done(),
        ensures
            final(self).wf(),
            final(self).ids() == old(self).ids(),
            final(self).pauses_without_mutex() == old(self).pauses_without_mutex(),
            ({
                let n = old(self).results().len();
                let r = final(self).results()[n as int];
                &&& final(self).results().take(n as int) == old(self).results()
                &&& r.account_id@ == old(self).ids()[n as int]@
                &&& r.success == outcome.success
                &&& r.d2r_pid == outcome.d2r_pid
                &&& r.error == outcome.error
                &&& r.mutex_killed == outcome.mutex_killed
                &&& paused == (old(self).pauses_without_mutex() && outcome.success
                    && !outcome.mutex_killed && n + 1 < old(self).ids().len())
                &&& paused ==> final(self).done() && forall|i: int|
                    n < i < final(self).results().len() ==> failed_with(
                        #[trigger] final(self).results()[i],
                        final(self).ids()[i]@,
                        paused_text(),
                    )
                &&& !paused ==> final(self).results().len() == n + 1
            }),
    {
        let i = self.results.len();
        let LaunchResult { account_id: _, success, d2r_pid, error, mutex_killed } = outcome;
        let r = LaunchResult {
            account_id: copy_string(self.ids[i].as_str()),
            success,
            d2r_pid,
            error,
            mutex_killed,
        };
        self.results.push(r);
        let pause = self.pause_without_mutex && success && !mutex_killed && i < self.ids.len() - 1;
        if pause {
            let ghost mid = self.results@;
            self.fail_rest("互斥句柄未清除，已暂停");
            proof {
                assert(self.results@.take(i as int) == mid.take(i as int));
                assert(self.results@[i as int] == mid[i as int]);
            }
        }
        pause
    }

    /// The results, one per account that was reached, in queue order.
    pub fn into_results(self) -> (r: Vec<LaunchResult>)
        ensures
            r@ == self.results(),
    {
        self.results
    }
}

/// A finished queue has exactly one result per account, in the order the
/// accounts were given, each under its account's id.
pub proof fn lemma_queue_reports_every_account(q: LaunchQueue)
    requires
        q.wf(),
        q.done(),
    ensures
        q.results().len() == q.ids().len(),
        forall|i: int| 0 <= i < q.ids().len() ==> #[trigger] q.results()[i].account_id@ == q.ids()[i]@,
{
}

// ---------------------------------------------------------------------------
// Waiting for the Battle.net client
// ---------------------------------------------------------------------------

/// With this many `Battle.net.exe` processes the client has logged in.
pub const BNET_LOGIN_PROCESS_COUNT_THRESHOLD: usize = 7;

/// What to do with the Battle.net client when a launch is cancelled.
#[derive(Debug, Clone, Copy, PartialEq, Eq, Structural)]
pub enum CancelCleanup {
    /// The client has logged in: close it, then save its login back to the account.
    CloseAndSync,
    /// The client runs but has not logged in: kill it, saving nothing.
    KillOnly,
    /// No client runs.
    Nothing,
}

/// The cleanup after a cancelled launch, by the number of Battle.net
/// processes running.
pub fn cancel_cleanup(bnet_count: usize) -> (r: CancelCleanup)
    ensures
        bnet_count >= BNET_LOGIN_PROCESS_COUNT_THRESHOLD ==> r is CloseAndSync,
        0 < bnet_count < BNET_LOGIN_PROCESS_COUNT_THRESHOLD ==> r is KillOnly,
        bnet_count == 0 ==> r is Nothing,
{
    if bnet_count >= BNET_LOGIN_PROCESS_COUNT_THRESHOLD {
        CancelCleanup::CloseAndSync
    } else if bnet_count > 0 {
        CancelCleanup::KillOnly
    } else {
        CancelCleanup::Nothing
    }
}

/// One second of waiting for the Battle.net login.
#[derive(Debug, Clone, Copy, PartialEq, Eq, Structural)]
pub enum LoginWait {
    /// The client has logged in.
    LoggedIn,
    /// Still waiting; report progress now.
    Report,
    /// Still waiting.
    Keep,
}

/// The waiting step after `second` seconds with `bnet_count` client
/// processes: logged in at the threshold, a progress report every fifth
/// second.
pub fn login_wait_step(second: u32, bnet_count: usize) -> (r: LoginWait)
    ensures
        bnet_count >= BNET_LOGIN_PROCESS_COUNT_THRESHOLD ==> r is LoggedIn,
        bnet_count < BNET_LOGIN_PROCESS_COUNT_THRESHOLD && second % 5 == 0 ==> r is Report,
        bnet_count < BNET_LOGIN_PROCESS_COUNT_THRESHOLD && second % 5 != 0 ==> r is Keep,
{
    if bnet_count >= BNET_LOGIN_PROCESS_COUNT_THRESHOLD {
        LoginWait::LoggedIn
    } else if second % 5 == 0 {
        LoginWait::Report
    } else {
        LoginWait::Keep
    }
}

// ---------------------------------------------------------------------------
// Importing a `.reg` file
// ---------------------------------------------------------------------------

/// Little-endian 16-bit code units, two bytes each.
pub open spec fn le_units(b: Seq<u8>) -> Seq<u16> {
    Seq::new(b.len() / 2, |i: int| (b[2 * i] + 256 * b[2 * i + 1]) as u16)
}

/// The bytes start with `prefix`.
pub open spec fn has_bom(raw: Seq<u8>, prefix: Seq<u8>) -> bool {
    raw.len() >= prefix.len() && raw.take(prefix.len() as int) == prefix
}

/// The text of a registry export: UTF-16LE after the byte-order mark
/// `FF FE`, UTF-8 after the mark `EF BB BF`, UTF-8 otherwise; `None` when
/// the bytes are not valid in that encoding (or are an odd number of
/// UTF-16 bytes).
pub open spec fn decode_reg_spec(raw: Seq<u8>) -> Option<Seq<char>> {
    if has_bom(raw, seq![0xFFu8, 0xFEu8]) {
        let rest = raw.skip(2);
        if rest.len() % 2 != 0 {
            None
        } else {
            utf16_decoded(le_units(rest))
        }
    } else {
        let body = if has_bom(raw, seq![0xEFu8, 0xBBu8, 0xBFu8]) {
            raw.skip(3)
        } else {
            raw
        };
        if vstd::utf8::valid_utf8(body) {
            Some(vstd::utf8::decode_utf8(body))
        } else {
            None
        }
    }
}

fn bytes_from(raw: &[u8], start: usize) -> (r: Vec<u8>)
    requires
        start <= raw.len(),
    ensures
        r@ == raw@.skip(start as int),
{
    let mut r: Vec<u8> = Vec::new();
    let mut i = start;
    while i < raw.len()
        invariant
            start <= i <= raw.len(),
            r@ == raw@.subrange(start as int, i as int),
        decreases raw.len() - i,
    {
        r.push(raw[i]);
        assert(raw@.subrange(start as int, i + 1) == raw@.subrange(start as int, i as int).push(
            raw@[i as int],
        ));
        i += 1;
    }
    r
}

/// Decodes a registry export as `decode_reg_spec` says.
pub fn decode_reg_file(raw: &[u8]) -> (r: Option<String>)
    ensures
        match decode_reg_spec(raw@) {
            Some(t) => r matches Some(s) && s@ == t,
            None => r is None,
        },
{
    if raw.len() >= 2 && raw[0] == 0xFF && raw[1] == 0xFE {
        proof {
            assert(raw@.take(2) =~= seq![0xFFu8, 0xFEu8]);
        }
        let n = raw.len() - 2;
        if n % 2 != 0 {
            return None;
        }
        let mut units: Vec<u16> = Vec::new();
        let mut k: usize = 0;
        let ghost rest = raw@.skip(2);
        while k < n / 2
            invariant
                n == raw.len() - 2,
                n % 2 == 0,
                rest == raw@.skip(2),
                k <= n / 2,
                units@ == le_units(rest).take(k as int),
            decreases n / 2 - k,
        {
            let lo = raw[2 + 2 * k];
            let hi = raw[2 + 2 * k + 1];
            let u: u16 = (hi as u16) * 256 + (lo as u16);
            proof {
                assert(rest[2 * k as int] == lo);
                assert(rest[2 * k + 1] == hi);
                assert(le_units(rest)[k as int] == u);
                assert(le_units(rest).take(k + 1) == le_units(rest).take(k as int).push(u));
            }
            units.push(u);
            k += 1;
        }
        assert(units@ == le_units(rest));
        utf16_to_string(units.as_slice())
    } else {
        proof {
            if has_bom(raw@, seq![0xFFu8, 0xFEu8]) {
                assert(raw@.take(2)[0] == raw@[0]);
                assert(raw@.take(2)[1] == raw@[1]);
            }
        }
        let utf8_bom = raw.len() >= 3 && raw[0] == 0xEF && raw[1] == 0xBB && raw[2] == 0xBF;
        proof {
            if utf8_bom {
                assert(raw@.take(3) == seq![0xEFu8, 0xBBu8, 0xBFu8]);
            } else if has_bom(raw@, seq![0xEFu8, 0xBBu8, 0xBFu8]) {
                assert(raw@.take(3)[0] == raw@[0]);
                assert(raw@.take(3)[1] == raw@[1]);
                assert(raw@.take(3)[2] == raw@[2]);
            }
        }
        let body = if utf8_bom {
            bytes_from(raw, 3)
        } else {
            bytes_from(raw, 0)
        };
        proof {
            assert(raw@.skip(0) == raw@);
        }
        utf8_to_string(body)
    }
}

/// A registry path whose presence in an export refuses the import: the
/// machine-wide autostart key.
pub open spec fn autostart_key() -> Seq<char> {
    "hkey_local_machine\\software\\microsoft\\windows\\currentversion\\run"@
}

/// An export that touches the machine-wide autostart key or the class
/// registry (compared in lower case).
pub open spec fn reg_text_is_dangerous(text: Seq<char>) -> bool {
    contains_spec(lowercase(text), autostart_key()) || contains_spec(
        lowercase(text),
        "hkey_classes_root"@,
    )
}

/// Checks the bytes of an account's registry export before `reg import`:
/// an empty file, an undecodable one and one that touches system keys are
/// refused; otherwise its text comes back.
pub fn check_reg_import(raw: &[u8]) -> (r: Result<String, String>)
    ensures
        raw@.len() == 0 ==> (r matches Err(e) && e@ == "注册表文件为空，导入被拒绝"@),
        raw@.len() > 0 && decode_reg_spec(raw@) is None ==> (r matches Err(e) && e@
            == "注册表文件编码无法识别（需 UTF-8 或 UTF-16LE），导入被拒绝"@),
        raw@.len() > 0 ==> match decode_reg_spec(raw@) {
            Some(t) => if reg_text_is_dangerous(t) {
                r matches Err(e) && e@ == "注册表文件包含危险键路径，导入被拒绝"@
            } else {
                r matches Ok(s) && s@ == t
            },
            None => true,
        },
{
    if raw.len() == 0 {
        return Err(copy_string("注册表文件为空，导入被拒绝"));
    }
    let text = match decode_reg_file(raw) {
        Some(t) => t,
        None => {
            return Err(copy_string("注册表文件编码无法识别（需 UTF-8 或 UTF-16LE），导入被拒绝"));
        },
    };
    let lower = to_lowercase(text.as_str());
    if str_contains(lower.as_str(), "hkey_local_machine\\software\\microsoft\\windows\\currentversion\\run")
        || str_contains(lower.as_str(), "hkey_classes_root") {
        return Err(copy_string("注册表文件包含危险键路径，导入被拒绝"));
    }
    Ok(text)
}

// ---------------------------------------------------------------------------
// Starting the client and choosing the way to launch
// ---------------------------------------------------------------------------

/// The configured client path names the Battle.net executable (compared in
/// lower case).
pub open spec fn is_battle_net_exe(path: Seq<char>) -> bool {
    ends_with_spec(lowercase(path), "battle.net.exe"@)
}

/// Checks the client path before it is started; the error names the path.
pub fn check_battle_net_path(path: &str) -> (r: Result<(), String>)
    ensures
        is_battle_net_exe(path@) ==> r is Ok,
        !is_battle_net_exe(path@) ==> (r matches Err(e) && e@ == "战网路径异常，预期 Battle.net.exe: "@
            + path@),
{
    let lower = to_lowercase(path);
    let lc = chars_of(lower.as_str());
    let suffix = chars_of("battle.net.exe");
    if chars_end_with(lc.as_slice(), suffix.as_slice()) {
        Ok(())
    } else {
        let mut msg = copy_string("战网路径异常，预期 Battle.net.exe: ");
        let p = chars_of(path);
        push_all(&mut msg, p.as_slice());
        Err(msg)
    }
}

/// How an account is launched.
#[derive(Debug, Clone, Copy, PartialEq, Eq, Structural)]
pub enum LaunchRoute {
    /// The Battle.net login of this account has expired: it must be initialized again.
    TokenExpired,
    /// Start the game directly with the account's token.
    Token,
    /// Log in through the Battle.net client.
    BattleNet,
}

/// The route for an account whose metadata could (`Some`) or could not be
/// read: token accounts go directly; a Battle.net account whose login has
/// `expired` is refused; everything else goes through the client.
pub fn route_for(meta: Option<&AccountMeta>, expired: bool) -> (r: LaunchRoute)
    ensures
        match meta {
            Some(m) => if opt_is(m.auth_mode, "token"@) {
                r is Token
            } else if expired {
                r is TokenExpired
            } else {
                r is BattleNet
            },
            None => r is BattleNet,
        },
{
    match meta {
        Some(m) => {
            let token = match &m.auth_mode {
                Some(a) => str_eq(a.as_str(), "token"),
                None => false,
            };
            if token {
                LaunchRoute::Token
            } else if expired {
                LaunchRoute::TokenExpired
            } else {
                LaunchRoute::BattleNet
            }
        },
        None => LaunchRoute::BattleNet,
    }
}

/// The route for an account, with the expiry of a Battle.net account's
/// login judged by the clock: the route `route_for` gives for what
/// `is_token_expired` said.
pub fn launch_route(meta: Option<&AccountMeta>) -> (r: LaunchRoute)
    ensures
        match meta {
            Some(m) => if opt_is(m.auth_mode, "token"@) {
                r is Token
            } else {
                &&& r is TokenExpired || r is BattleNet
                &&& m.last_reset_at is None ==> r is BattleNet
                &&& (m.last_reset_at matches Some(ts) && !rfc3339_parses(ts@)) ==> r is BattleNet
                &&& r is TokenExpired ==> (m.last_reset_at matches Some(ts) && rfc3339_parses(ts@))
            },
            None => r is BattleNet,
        },
{
    let expired = match meta {
        Some(m) => is_token_expired(&m.last_reset_at),
        None => false,
    };
    route_for(meta, expired)
}

// ---------------------------------------------------------------------------
// Launching with a token
// ---------------------------------------------------------------------------

/// Splitting text at white space, read from the left: the words completed
/// so far and the word being read.
pub open spec fn words_acc(s: Seq<char>) -> (Seq<Seq<char>>, Seq<char>)
    decreases s.len(),
{
    if s.len() == 0 {
        (Seq::empty(), Seq::empty())
    } else {
        let prev = words_acc(s.drop_last());
        let c = s.last();
        if is_ws(c) {
            if prev.1.len() > 0 {
                (prev.0.push(prev.1), Seq::empty())
            } else {
                (prev.0, Seq::empty())
            }
        } else {
            (prev.0, prev.1.push(c))
        }
    }
}

/// `str::split_whitespace`: the maximal runs of characters that are not
/// white space, in order.
pub open spec fn split_ws_spec(s: Seq<char>) -> Seq<Seq<char>> {
    let w = words_acc(s);
    if w.1.len() > 0 {
        w.0.push(w.1)
    } else {
        w.0
    }
}

/// The texts of a list of strings.
pub open spec fn texts(v: Seq<String>) -> Seq<Seq<char>> {
    v.map_values(|x: String| x@)
}

/// Splits text into its words, as `str::split_whitespace` does.
pub fn split_whitespace(s: &str) -> (r: Vec<String>)
    ensures
        texts(r@) == split_ws_spec(s@),
{
    let v = chars_of(s);
    let mut words: Vec<String> = Vec::new();
    let mut cur = String::new();
    let mut i: usize = 0;
    while i < v.len()
        invariant
            i <= v.len(),
            (texts(words@), cur@) == words_acc(v@.take(i as int)),
        decreases v.len() - i,
    {
        let c = v[i];
        proof {
            assert(v@.take(i + 1).drop_last() == v@.take(i as int));
            assert(v@.take(i + 1).last() == c);
        }
        if is_whitespace(c) {
            if !cur.as_str().is_empty() {
                let w = cur;
                words.push(w);
                cur = String::new();
                proof {
                    assert(texts(words@) == words_acc(v@.take(i as int)).0.push(w@));
                }
            }
        } else {
            push_char(&mut cur, c);
        }
        i += 1;
    }
    assert(v@.take(v.len() as int) == v@);
    if !cur.as_str().is_empty() {
        let w = cur;
        words.push(w);
        assert(texts(words@) == words_acc(v@).0.push(w@));
    }
    words
}

/// What a token launch writes and runs: the region and languages for the
/// launch options, the protected token, and the game's arguments.
#[derive(Debug, Clone)]
pub struct TokenLaunch {
    pub region: String,
    pub locale: String,
    pub audio_locale: String,
    pub web_token: Vec<u8>,
    pub args: Vec<String>,
}

/// The account's region, `CN` when none is set.
pub open spec fn region_or_cn(region: Option<String>) -> Seq<char> {
    match region {
        Some(r) => r@,
        None => "CN"@,
    }
}

/// The chosen language, or the region's default.
pub open spec fn language_or_default(chosen: Option<String>, region: Option<String>) -> Seq<char> {
    match chosen {
        Some(l) => l@,
        None => default_locale_spec(region),
    }
}

/// The game's arguments for a token launch: `-uid osic` for the `CN` region
/// and `-uid OSI` for the others, then the words of the mod arguments.
pub open spec fn token_args(region: Seq<char>, mod_args: Seq<char>) -> Seq<Seq<char>> {
    seq!["-uid"@, if region == "CN"@ { "osic"@ } else { "OSI"@ }] + split_ws_spec(mod_args)
}

/// The decoded token must come from whole characters of its text.
pub open spec fn token_decodable(meta: AccountMeta) -> bool {
    meta.token matches Some(t) ==> hex_decode_slices_whole_chars(vstd::utf8::encode_utf8(t@))
}

/// Prepares a token launch of the account: the stored token is
/// hexadecimal text of the protected token, which is decoded; a missing
/// token or one that does not decode is an error.
pub fn plan_token_launch(meta: &AccountMeta) -> (r: Result<TokenLaunch, String>)
    requires
        token_decodable(*meta),
    ensures
        match meta.token {
            None => r matches Err(e) && e@ == "账号缺少 Token"@,
            Some(t) => match hex_decode_outcome(vstd::utf8::encode_utf8(t@)) {
                HexOutcome::OddLength => r matches Err(e) && e@ == "Token 解码失败: "@
                    + "hex string has odd length"@,
                HexOutcome::InvalidDigit => r matches Err(e) && e@ == "Token 解码失败: "@
                    + "invalid hex: invalid digit found in string"@,
                HexOutcome::Decoded(bytes) => r matches Ok(p) && {
                    &&& p.web_token@ == bytes
                    &&& p.region@ == region_or_cn(meta.region)
                    &&& p.locale@ == language_or_default(meta.language, meta.region)
                    &&& p.audio_locale@ == language_or_default(meta.voicelanguage, meta.region)
                    &&& texts(p.args@) == token_args(region_or_cn(meta.region), meta.mod_args@)
                },
            },
        },
{
    let token = match &meta.token {
        Some(t) => t,
        None => {
            return Err(copy_string("账号缺少 Token"));
        },
    };
    let web_token = match hex_decode(token.as_str()) {
        Ok(b) => b,
        Err(e) => {
            let mut msg = copy_string("Token 解码失败: ");
            let ec = chars_of(e.as_str());
            push_all(&mut msg, ec.as_slice());
            return Err(msg);
        },
    };
    let region = match &meta.region {
        Some(r) => copy_string(r.as_str()),
        None => copy_string("CN"),
    };
    let default = default_locale(&meta.region);
    let locale = match &meta.language {
        Some(l) => copy_string(l.as_str()),
        None => copy_string(default.as_str()),
    };
    let audio_locale = match &meta.voicelanguage {
        Some(l) => copy_string(l.as_str()),
        None => copy_string(default.as_str()),
    };
    let mut args: Vec<String> = Vec::new();
    args.push(copy_string("-uid"));
    if str_eq(region.as_str(), "CN") {
        args.push(copy_string("osic"));
    } else {
        args.push(copy_string("OSI"));
    }
    let words = split_whitespace(meta.mod_args.as_str());
    let ghost head = args@;
    let mut i: usize = 0;
    while i < words.len()
        invariant
            i <= words.len(),
            head.len() == 2,
            texts(head) == seq!["-uid"@, if region@ == "CN"@ { "osic"@ } else { "OSI"@ }],
            args@.len() == 2 + i,
            args@.take(2) == head,
            forall|j: int| 0 <= j < i ==> #[trigger] args@[2 + j]@ == words@[j]@,
        decreases words.len() - i,
    {
        args.push(copy_string(words[i].as_str()));
        i += 1;
    }
    proof {
        let want = token_args(region@, meta.mod_args@);
        assert(texts(args@).len() == want.len());
        assert forall|j: int| 0 <= j < want.len() implies texts(args@)[j] == want[j] by {
            if j < 2 {
                assert(args@[j] == head[j]);
            } else {
                assert(args@[2 + (j - 2)]@ == words@[j - 2]@);
            }
        }
        assert(texts(args@) == want);
    }
    Ok(TokenLaunch { region, locale, audio_locale, web_token, args })
}

// ---------------------------------------------------------------------------
// Waiting for the game process
// ---------------------------------------------------------------------------

/// The processes that the launch watches.
#[derive(Debug, Clone, Copy, PartialEq, Eq, Structural)]
pub enum ProcessKind {
    /// `Agent.exe`, in any case.
    Agent,
    /// `Battle.net.exe`.
    BattleNet,
    /// `D2R.exe`.
    Game,
    Other,
}

/// The kind of a process by its name.
pub open spec fn kind_of(name: Seq<char>) -> ProcessKind {
    if eq_ignore_ascii_case_spec(name, "Agent.exe"@) {
        ProcessKind::Agent
    } else if name == "Battle.net.exe"@ {
        ProcessKind::BattleNet
    } else if name == "D2R.exe"@ {
        ProcessKind::Game
    } else {
        ProcessKind::Other
    }
}

/// The kind of a process by its name.
pub fn classify_process(name: &str) -> (r: ProcessKind)
    ensures
        r == kind_of(name@),
{
    if eq_ignore_ascii_case(name, "Agent.exe") {
        ProcessKind::Agent
    } else if str_eq(name, "Battle.net.exe") {
        ProcessKind::BattleNet
    } else if str_eq(name, "D2R.exe") {
        ProcessKind::Game
    } else {
        ProcessKind::Other
    }
}

/// The pid of a listed process when it is of kind `k`.
pub open spec fn pid_if(k: ProcessKind) -> spec_fn((u32, String)) -> Option<u32> {
    |p: (u32, String)| if kind_of(p.1@) == k { Some(p.0) } else { None }
}

/// The pids of the processes of kind `k`, in the order listed.
pub open spec fn pids_of_kind(procs: Seq<(u32, String)>, k: ProcessKind) -> Seq<u32> {
    procs.filter_map(pid_if(k))
}

/// What one look at the process list shows.
#[derive(Debug, Clone)]
pub struct ProcessSnapshot {
    pub agent_pids: Vec<u32>,
    pub bnet_count: usize,
    pub d2r_pids: Vec<u32>,
}

/// Sorts a process list, given as pid and name, into what the launch watches.
pub fn take_snapshot(procs: &[(u32, String)]) -> (r: ProcessSnapshot)
    ensures
        r.agent_pids@ == pids_of_kind(procs@, ProcessKind::Agent),
        r.bnet_count == pids_of_kind(procs@, ProcessKind::BattleNet).len(),
        r.d2r_pids@ == pids_of_kind(procs@, ProcessKind::Game),
{
    let mut agents: Vec<u32> = Vec::new();
    let mut bnet: usize = 0;
    let mut games: Vec<u32> = Vec::new();
    let ghost fa = pid_if(ProcessKind::Agent);
    let ghost fb = pid_if(ProcessKind::BattleNet);
    let ghost fg = pid_if(ProcessKind::Game);
    let mut i: usize = 0;
    while i < procs.len()
        invariant
            i <= procs.len(),
            fa == pid_if(ProcessKind::Agent),
            fb == pid_if(ProcessKind::BattleNet),
            fg == pid_if(ProcessKind::Game),
            agents@ == procs@.take(i as int).filter_map(fa),
            bnet == procs@.take(i as int).filter_map(fb).len(),
            bnet <= i,
            games@ == procs@.take(i as int).filter_map(fg),
        decreases procs.len() - i,
    {
        proof {
            procs@.lemma_filter_map_take_succ(fa, i as int);
            procs@.lemma_filter_map_take_succ(fb, i as int);
            procs@.lemma_filter_map_take_succ(fg, i as int);
        }
        let k = classify_process(procs[i].1.as_str());
        let ghost a0 = agents@;
        let ghost g0 = games@;
        let ghost pi = procs@[i as int];
        match k {
            ProcessKind::Agent => {
                agents.push(procs[i].0);
                assert(agents@ == a0 + seq![pi.0]);
            },
            ProcessKind::BattleNet => {
                bnet += 1;
            },
            ProcessKind::Game => {
                games.push(procs[i].0);
                assert(games@ == g0 + seq![pi.0]);
            },
            ProcessKind::Other => {},
        }
        proof {
            assert(k == kind_of(pi.1@));
            if k == ProcessKind::Agent {
                assert(fa(pi) == Some(pi.0));
            } else {
                assert(fa(pi) is None);
                assert(agents@ == a0 + Seq::<u32>::empty());
            }
            if k == ProcessKind::Game {
                assert(fg(pi) == Some(pi.0));
            } else {
                assert(fg(pi) is None);
                assert(games@ == g0 + Seq::<u32>::empty());
            }
            if k == ProcessKind::BattleNet {
                assert(fb(pi) == Some(pi.0));
            } else {
                assert(fb(pi) is None);
            }
        }
        i += 1;
    }
    assert(procs@.take(procs.len() as int) == procs@);
    ProcessSnapshot { agent_pids: agents, bnet_count: bnet, d2r_pids: games }
}

/// The first pid of `pids` that is not among `before`.
pub open spec fn first_new(pids: Seq<u32>, before: Seq<u32>) -> Option<u32>
    decreases pids.len(),
{
    if pids.len() == 0 {
        None
    } else if !before.contains(pids[0]) {
        Some(pids[0])
    } else {
        first_new(pids.drop_first(), before)
    }
}

proof fn lemma_first_new_skip(pids: Seq<u32>, before: Seq<u32>, i: int)
    requires
        0 <= i <= pids.len(),
        forall|j: int| 0 <= j < i ==> before.contains(#[trigger] pids[j]),
    ensures
        first_new(pids, before) == first_new(pids.skip(i), before),
    decreases i,
{
    if i > 0 {
        assert(before.contains(pids[0]));
        let t = pids.drop_first();
        assert forall|j: int| 0 <= j < i - 1 implies before.contains(#[trigger] t[j]) by {
            assert(t[j] == pids[j + 1]);
        }
        lemma_first_new_skip(t, before, i - 1);
        assert(t.skip(i - 1) == pids.skip(i));
    } else {
        assert(pids.skip(0) == pids);
    }
}

/// The first game process that was not running before the launch.
pub fn first_new_pid(pids: &[u32], before: &[u32]) -> (r: Option<u32>)
    ensures
        r == first_new(pids@, before@),
{
    let mut i: usize = 0;
    while i < pids.len()
        invariant
            i <= pids.len(),
            forall|j: int| 0 <= j < i ==> before@.contains(#[trigger] pids@[j]),
        decreases pids.len() - i,
    {
        let p = pids[i];
        let mut known = false;
        let mut k: usize = 0;
        while k < before.len()
            invariant
                k <= before.len(),
                known == exists|m: int| 0 <= m < k && before@[m] == p,
            decreases before.len() - k,
        {
            if before[k] == p {
                known = true;
            }
            k += 1;
        }
        if !known {
            proof {
                lemma_first_new_skip(pids@, before@, i as int);
                assert(pids@.skip(i as int)[0] == p);
            }
            return Some(p);
        }
        i += 1;
    }
    proof {
        lemma_first_new_skip(pids@, before@, i as int);
    }
    None
}

/// How the launch treats the Battle.net agent while the game starts: mode
/// 1 kills it once it has lived `agent_delay_ms`, mode 2 once there are
/// `agent_threshold` client processes, mode 3 leaves it alone.
#[derive(Debug, Clone, Copy)]
pub struct WaitPolicy {
    pub agent_mode: u32,
    pub agent_threshold: u32,
    pub agent_delay_ms: u64,
}

/// What the launch remembers between two looks at the process list.
#[derive(Debug)]
pub struct AgentWatch {
    /// The agent process being watched.
    pub locked_agent: Option<u32>,
    /// When it was first seen (milliseconds on the caller's clock).
    pub locked_at_ms: Option<u64>,
    /// The first agent has been killed; every later one is killed on sight.
    pub first_agent_killed: bool,
    /// When the game was last asked to start.
    pub last_launch_ms: Option<u64>,
    /// Agents killed on sight so far.
    pub killed_agents: HashSet<u32>,
}

/// What to do after one look at the process list.
#[derive(Debug, Clone)]
pub struct WaitStep {
    /// The new game process: the wait is over.
    pub game_pid: Option<u32>,
    /// An agent was locked on just now.
    pub newly_locked: Option<u32>,
    /// Kill the locked agent now.
    pub kill_locked: Option<u32>,
    /// Kill these agents now.
    pub chase_kills: Vec<u32>,
    /// Those of them seen for the first time.
    pub newly_seen: Vec<u32>,
    /// Ask the client to start the game.
    pub send_launch: bool,
    /// Report that the client is still loading.
    pub report_waiting: bool,
}

/// Milliseconds from `since` to `now` (none when the clock went back).
pub open spec fn elapsed_ms(now: u64, since: u64) -> int {
    if now >= since {
        now - since
    } else {
        0
    }
}

/// The agent lock after a look at the agents: a lock on an agent that is
/// gone is dropped, and without a lock the first agent listed is locked.
/// The third part is the agent locked just now.
pub open spec fn relock(locked: Option<u32>, at: Option<u64>, agents: Seq<u32>, now: u64) -> (
    Option<u32>,
    Option<u64>,
    Option<u32>,
) {
    let kept = match locked {
        Some(p) => agents.contains(p),
        None => false,
    };
    if kept {
        (locked, at, None)
    } else if agents.len() > 0 {
        (Some(agents[0]), Some(now), Some(agents[0]))
    } else if locked is Some {
        (None, None, None)
    } else {
        (None, at, None)
    }
}

/// The locked agent is due to be killed.
pub open spec fn kill_due(policy: WaitPolicy, bnet_count: usize, at: Option<u64>, now: u64) -> bool {
    if policy.agent_mode == 2 {
        bnet_count >= policy.agent_threshold
    } else {
        match at {
            Some(t) => elapsed_ms(now, t) >= policy.agent_delay_ms,
            None => false,
        }
    }
}

/// The game is asked to start again at most every five seconds.
pub open spec fn launch_due(last: Option<u64>, now: u64) -> bool {
    match last {
        None => true,
        Some(t) => elapsed_ms(now, t) >= 5000,
    }
}

/// One step of the wait, from the watch `w0` and a look at the processes to
/// the watch `w1` and the step `st`:
/// a game process that was not running before ends the wait;
/// otherwise, unless the agent is left alone, the agent is locked on and,
/// when due, killed once, after which every agent is killed on sight;
/// with more than five client processes the game is asked to start (at
/// most every five seconds), with fewer the wait for the client is reported
/// until the game has been asked once.
pub open spec fn wait_step_spec(
    w0: AgentWatch,
    w1: AgentWatch,
    st: WaitStep,
    snap: ProcessSnapshot,
    before: Seq<u32>,
    now: u64,
    policy: WaitPolicy,
) -> bool {
    let agents = snap.agent_pids@;
    let active = policy.agent_mode != 3;
    let found = first_new(snap.d2r_pids@, before);
    let rl = relock(w0.locked_agent, w0.locked_at_ms, agents, now);
    let locking = active && !w0.first_agent_killed;
    let l1 = if locking { rl.0 } else { w0.locked_agent };
    let a1 = if locking { rl.1 } else { w0.locked_at_ms };
    let kill = locking && l1 is Some && kill_due(policy, snap.bnet_count, a1, now);
    let chasing = active && w0.first_agent_killed;
    let send = snap.bnet_count > 5 && launch_due(w0.last_launch_ms, now);
    &&& st.game_pid == found
    &&& if found is Some {
        &&& w1.locked_agent == w0.locked_agent
        &&& w1.locked_at_ms == w0.locked_at_ms
        &&& w1.first_agent_killed == w0.first_agent_killed
        &&& w1.last_launch_ms == w0.last_launch_ms
        &&& w1.killed_agents@ == w0.killed_agents@
        &&& st.newly_locked is None && st.kill_locked is None
        &&& st.chase_kills@.len() == 0 && st.newly_seen@.len() == 0
        &&& !st.send_launch && !st.report_waiting
    } else {
        &&& st.newly_locked == (if locking { rl.2 } else { None })
        &&& st.kill_locked == (if kill { l1 } else { None })
        &&& w1.locked_agent == (if kill { None } else { l1 })
        &&& w1.locked_at_ms == a1
        &&& w1.first_agent_killed == (w0.first_agent_killed || kill)
        &&& st.chase_kills@ == (if chasing { agents } else { Seq::empty() })
        &&& (forall|p: u32| #[trigger] st.newly_seen@.contains(p) <==> chasing && agents.contains(p)
            && !w0.killed_agents@.contains(p))
        &&& st.newly_seen@.no_duplicates()
        &&& (forall|p: u32| #[trigger] w1.killed_agents@.contains(p) <==> w0.killed_agents@.contains(p)
            || (chasing && agents.contains(p)))
        &&& st.send_launch == send
        &&& w1.last_launch_ms == (if send { Some(now) } else { w0.last_launch_ms })
        &&& st.report_waiting == (snap.bnet_count <= 5 && w0.last_launch_ms is None)
    }
}

fn contains_pid(v: &Vec<u32>, p: u32) -> (r: bool)
    ensures
        r == v@.contains(p),
{
    let mut i: usize = 0;
    while i < v.len()
        invariant
            i <= v.len(),
            forall|j: int| 0 <= j < i ==> v@[j] != p,
        decreases v.len() - i,
    {
        if v[i] == p {
            assert(v@[i as int] == p);
            return true;
        }
        i += 1;
    }
    false
}

fn copy_pids(v: &Vec<u32>) -> (r: Vec<u32>)
    ensures
        r@ == v@,
{
    let mut r: Vec<u32> = Vec::new();
    let mut i: usize = 0;
    while i < v.len()
        invariant
            i <= v.len(),
            r@ == v@.take(i as int),
        decreases v.len() - i,
    {
        r.push(v[i]);
        assert(v@.take(i + 1) == v@.take(i as int).push(v@[i as int]));
        i += 1;
    }
    assert(v@.take(v.len() as int) == v@);
    r
}

impl AgentWatch {
    /// Nothing watched yet.
    pub fn new() -> (w: Self)
        ensures
            w.locked_agent is None,
            w.locked_at_ms is None,
            !w.first_agent_killed,
            w.last_launch_ms is None,
            w.killed_agents@ == Set::<u32>::empty(),
    {
        AgentWatch {
            locked_agent: None,
            locked_at_ms: None,
            first_agent_killed: false,
            last_launch_ms: None,
            killed_agents: HashSet::new(),
        }
    }

    /// One step of the wait for the game process (see `wait_step_spec`);
    /// `before` lists the game processes running before the launch and
    /// `now_ms` is the time of the look.
    pub fn step(&mut self, snap: &ProcessSnapshot, before: &[u32], now_ms: u64, policy: &WaitPolicy) -> (st: WaitStep)
        ensures
            wait_step_spec(*old(self), *final(self), st, *snap, before@, now_ms, *policy),
    {
        broadcast use vstd::seq_lib::lemma_seq_contains_after_push;

        let found = first_new_pid(snap.d2r_pids.as_slice(), before);
        if found.is_some() {
            return WaitStep {
                game_pid: found,
                newly_locked: None,
                kill_locked: None,
                chase_kills: Vec::new(),
                newly_seen: Vec::new(),
                send_launch: false,
                report_waiting: false,
            };
        }
        let active = policy.agent_mode != 3;
        let mut newly_locked: Option<u32> = None;
        let mut kill_locked: Option<u32> = None;
        let mut chase_kills: Vec<u32> = Vec::new();
        let mut newly_seen: Vec<u32> = Vec::new();
        if active && !self.first_agent_killed {
            let kept = match self.locked_agent {
                Some(p) => contains_pid(&snap.agent_pids, p),
                None => false,
            };
            if !kept {
                if snap.agent_pids.len() > 0 {
                    let first = snap.agent_pids[0];
                    self.locked_agent = Some(first);
                    self.locked_at_ms = Some(now_ms);
                    newly_locked = Some(first);
                } else if self.locked_agent.is_some() {
                    self.locked_agent = None;
                    self.locked_at_ms = None;
                }
            }
            if let Some(ap) = self.locked_agent {
                let due = if policy.agent_mode == 2 {
                    snap.bnet_count >= policy.agent_threshold as usize
                } else {
                    match self.locked_at_ms {
                        Some(t) => {
                            let el: u64 = if now_ms >= t {
                                now_ms - t
                            } else {
                                0
                            };
                            el >= policy.agent_delay_ms
                        },
                        None => false,
                    }
                };
                if due {
                    kill_locked = Some(ap);
                    self.first_agent_killed = true;
                    self.locked_agent = None;
                }
            }
        } else if active {
            chase_kills = copy_pids(&snap.agent_pids);
            let ghost k0 = self.killed_agents@;
            let ghost w0 = *self;
            let mut i: usize = 0;
            while i < snap.agent_pids.len()
                invariant
                    i <= snap.agent_pids.len(),
                    self.locked_agent == w0.locked_agent,
                    self.locked_at_ms == w0.locked_at_ms,
                    self.first_agent_killed == w0.first_agent_killed,
                    self.last_launch_ms == w0.last_launch_ms,
                    forall|p: u32| #[trigger] newly_seen@.contains(p) <==> snap.agent_pids@.take(
                        i as int,
                    ).contains(p) && !k0.contains(p),
                    newly_seen@.no_duplicates(),
                    forall|p: u32| #[trigger] self.killed_agents@.contains(p) <==> k0.contains(p)
                        || snap.agent_pids@.take(i as int).contains(p),
                decreases snap.agent_pids.len() - i,
            {
                let p = snap.agent_pids[i];
                proof {
                    assert(snap.agent_pids@.take(i + 1) == snap.agent_pids@.take(i as int).push(p));
                }
                let ghost ns0 = newly_seen@;
                let ghost ka0 = self.killed_agents@;
                let fresh = self.killed_agents.insert(p);
                if fresh {
                    newly_seen.push(p);
                }
                proof {
                    let t0 = snap.agent_pids@.take(i as int);
                    let t1 = snap.agent_pids@.take(i + 1);
                    assert(t1 == t0.push(p));
                    if fresh {
                        assert(!ns0.contains(p));
                        assert(newly_seen@ == ns0.push(p));
                    }
                    assert forall|q: u32| #[trigger] newly_seen@.contains(q) <==> t1.contains(q)
                        && !k0.contains(q) by {
                        vstd::seq_lib::lemma_seq_contains_after_push(t0, p, q);
                        vstd::seq_lib::lemma_seq_contains_after_push(ns0, p, q);
                    }
                    assert forall|q: u32| #[trigger] self.killed_agents@.contains(q) <==> k0.contains(q)
                        || t1.contains(q) by {
                        vstd::seq_lib::lemma_seq_contains_after_push(t0, p, q);
                    }
                }
                i += 1;
            }
            assert(snap.agent_pids@.take(snap.agent_pids.len() as int) == snap.agent_pids@);
        }
        let mut send_launch = false;
        let mut report_waiting = false;
        if snap.bnet_count > 5 {
            let due = match self.last_launch_ms {
                None => true,
                Some(t) => {
                    let el: u64 = if now_ms >= t {
                        now_ms - t
                    } else {
                        0
                    };
                    el >= 5000
                },
            };
            if due {
                send_launch = true;
                self.last_launch_ms = Some(now_ms);
            }
        } else {
            report_waiting = self.last_launch_ms.is_none();
        }
        WaitStep {
            game_pid: None,
            newly_locked,
            kill_locked,
            chase_kills,
            newly_seen,
            send_launch,
            report_waiting,
        }
    }
}

// ---------------------------------------------------------------------------
// The course of a launch through the client
// ---------------------------------------------------------------------------

/// How long the launch waits for the game process to appear.
pub open spec fn game_wait_limit_ms() -> int {
    60_000
}

/// How long the launch waits for the game to reach the lobby server.
pub open spec fn connect_limit_ms() -> int {
    60_000
}

/// How long the launch waits, once connected, for the single-instance
/// handle to be closed.
pub open spec fn mutex_confirm_limit_ms() -> int {
    3_000
}

/// The message of a launch refused because the login has expired.
pub open spec fn expired_text() -> Seq<char> {
    "Token 已过期（超过30天），请重新初始化账号"@
}

/// The message of a launch whose game process never appeared.
pub open spec fn game_timeout_text() -> Seq<char> {
    "等待游戏进程启动超时"@
}

/// The message of a launch whose game never reached the lobby server.
pub open spec fn connect_timeout_text() -> Seq<char> {
    "连接服务器超时"@
}

/// Where a launch through the client stands.
#[derive(Debug, Clone, Copy, PartialEq, Eq, Structural)]
pub enum LaunchPhase {
    /// The route is being decided.
    Routing,
    /// The client is up; waiting for the game process.
    WaitingForGame,
    /// The game `pid` runs; waiting for it to reach the lobby server.
    Connecting(u32),
    /// Connected; waiting for the single-instance handle to be closed.
    ConfirmingMutex(u32),
    /// Closing the client and saving its state back into the account.
    Finishing(u32),
}

/// What happened since the last step of a launch.
#[derive(Debug, Clone, Copy, PartialEq, Eq, Structural)]
pub enum LaunchEvent {
    /// The route was decided.
    Routed(LaunchRoute),
    /// Time passed: `elapsed_ms` since the current phase began.
    Tick(u64),
    /// The new game process appeared.
    GameStarted(u32),
    /// The game reached the lobby server.
    Connected,
    /// The single-instance handle was closed.
    MutexCleared,
    /// The user asked to stop.
    Cancelled,
    /// The client was closed and its state saved back.
    Saved,
}

/// What the launch does next.
#[derive(Debug, Clone)]
pub enum LaunchNext {
    /// Keep waiting in the same phase.
    Stay,
    /// Go on to the phase (its clock starts anew).
    Enter(LaunchPhase),
    /// Launch the game directly with the account's token.
    LaunchWithToken,
    /// Stop: clean up, save the client's state, report the launch cancelled.
    CancelAndSave,
    /// The launch is over with this result.
    Finish(LaunchResult),
}

/// One step of a launch through the client, for `account_id`, given what
/// happened.  `mutex_killed` says whether the single-instance handle has
/// been closed so far.
///
/// - Routing: an expired login ends the launch with a failure; a token
///   account goes to the token launch; otherwise the wait for the game
///   begins.
/// - Waiting for the game: the new process leads to the connection wait;
///   after 60 seconds the launch fails.
/// - Connecting: once connected, the launch goes on to confirm the handle,
///   or straight to finishing when it is already closed; after 60 seconds
///   the launch fails.
/// - Confirming the handle: once closed, or after 3 seconds, finishing.
/// - Finishing: once the state is saved, the launch succeeded with the game
///   process.
/// - A cancel during any wait stops the launch.  Anything else keeps the
///   phase.
pub fn launch_step(account_id: &str, phase: LaunchPhase, event: LaunchEvent, mutex_killed: bool) -> (r: LaunchNext)
    ensures
        match (phase, event) {
            (LaunchPhase::Routing, LaunchEvent::Routed(LaunchRoute::TokenExpired)) => r matches LaunchNext::Finish(res)
                && failed_with(res, account_id@, expired_text()),
            (LaunchPhase::Routing, LaunchEvent::Routed(LaunchRoute::Token)) => r is LaunchWithToken,
            (LaunchPhase::Routing, LaunchEvent::Routed(LaunchRoute::BattleNet)) => r matches LaunchNext::Enter(
                LaunchPhase::WaitingForGame,
            ),
            (LaunchPhase::WaitingForGame, LaunchEvent::GameStarted(pid)) => r matches LaunchNext::Enter(
                LaunchPhase::Connecting(p),
            ) && p == pid,
            (LaunchPhase::WaitingForGame, LaunchEvent::Tick(ms)) => if ms >= game_wait_limit_ms() {
                r matches LaunchNext::Finish(res) && failed_with(res, account_id@, game_timeout_text())
            } else {
                r is Stay
            },
            (LaunchPhase::Connecting(pid), LaunchEvent::Connected) => if mutex_killed {
                r matches LaunchNext::Enter(LaunchPhase::Finishing(p)) && p == pid
            } else {
                r matches LaunchNext::Enter(LaunchPhase::ConfirmingMutex(p)) && p == pid
            },
            (LaunchPhase::Connecting(_), LaunchEvent::Tick(ms)) => if ms >= connect_limit_ms() {
                r matches LaunchNext::Finish(res) && failed_with(res, account_id@, connect_timeout_text())
            } else {
                r is Stay
            },
            (LaunchPhase::ConfirmingMutex(pid), LaunchEvent::MutexCleared) => r matches LaunchNext::Enter(
                LaunchPhase::Finishing(p),
            ) && p == pid,
            (LaunchPhase::ConfirmingMutex(pid), LaunchEvent::Tick(ms)) => if ms >= mutex_confirm_limit_ms() {
                r matches LaunchNext::Enter(LaunchPhase::Finishing(p)) && p == pid
            } else {
                r is Stay
            },
            (LaunchPhase::Finishing(pid), LaunchEvent::Saved) => r matches LaunchNext::Finish(res) && {
                &&& res.account_id@ == account_id@
                &&& res.success
                &&& res.d2r_pid == Some(pid)
                &&& res.error is None
                &&& res.mutex_killed == mutex_killed
            },
            (LaunchPhase::WaitingForGame, LaunchEvent::Cancelled) => r is CancelAndSave,
            (LaunchPhase::Connecting(_), LaunchEvent::Cancelled) => r is CancelAndSave,
            (LaunchPhase::ConfirmingMutex(_), LaunchEvent::Cancelled) => r is CancelAndSave,
            _ => r is Stay,
        },
{
    match (phase, event) {
        (LaunchPhase::Routing, LaunchEvent::Routed(route)) => match route {
            LaunchRoute::TokenExpired => {
                proof {
                    reveal_strlit("Token 已过期（超过30天），请重新初始化账号");
                }
                LaunchNext::Finish(failure(account_id, copy_string("Token 已过期（超过30天），请重新初始化账号")))
            },
            LaunchRoute::Token => LaunchNext::LaunchWithToken,
            LaunchRoute::BattleNet => LaunchNext::Enter(LaunchPhase::WaitingForGame),
        },
        (LaunchPhase::WaitingForGame, LaunchEvent::GameStarted(pid)) => LaunchNext::Enter(LaunchPhase::Connecting(pid)),
        (LaunchPhase::WaitingForGame, LaunchEvent::Tick(ms)) => {
            if ms >= 60_000 {
                LaunchNext::Finish(failure(account_id, copy_string("等待游戏进程启动超时")))
            } else {
                LaunchNext::Stay
            }
        },
        (LaunchPhase::Connecting(pid), LaunchEvent::Connected) => {
            if mutex_killed {
                LaunchNext::Enter(LaunchPhase::Finishing(pid))
            } else {
                LaunchNext::Enter(LaunchPhase::ConfirmingMutex(pid))
            }
        },
        (LaunchPhase::Connecting(_), LaunchEvent::Tick(ms)) => {
            if ms >= 60_000 {
                LaunchNext::Finish(failure(account_id, copy_string("连接服务器超时")))
            } else {
                LaunchNext::Stay
            }
        },
        (LaunchPhase::ConfirmingMutex(pid), LaunchEvent::MutexCleared) => LaunchNext::Enter(LaunchPhase::Finishing(pid)),
        (LaunchPhase::ConfirmingMutex(pid), LaunchEvent::Tick(ms)) => {
            if ms >= 3_000 {
                LaunchNext::Enter(LaunchPhase::Finishing(pid))
            } else {
                LaunchNext::Stay
            }
        },
        (LaunchPhase::Finishing(pid), LaunchEvent::Saved) => LaunchNext::Finish(succeeded(account_id, Some(pid), mutex_killed)),
        (LaunchPhase::WaitingForGame, LaunchEvent::Cancelled) => LaunchNext::CancelAndSave,
        (LaunchPhase::Connecting(_), LaunchEvent::Cancelled) => LaunchNext::CancelAndSave,
        (LaunchPhase::ConfirmingMutex(_), LaunchEvent::Cancelled) => LaunchNext::CancelAndSave,
        _ => LaunchNext::Stay,
    }
}

/// A window position read while the game runs is saved when it is a real
/// position (a minimized window reports about -32000) and differs from
/// the last one saved.
pub fn position_worth_saving(pos: (i32, i32), last: Option<(i32, i32)>) -> (r: bool)
    ensures
        r == (pos.0 > -10000 && pos.1 > -10000 && last != Some(pos)),
{
    let changed = match last {
        Some(l) => l.0 != pos.0 || l.1 != pos.1,
        None => true,
    };
    pos.0 > -10000 && pos.1 > -10000 && changed
}

/// The title given to an account's game window: its nickname, or its id
/// when it has none.
pub fn game_window_title(meta: &AccountMeta, account_id: &str) -> (r: String)
    ensures
        r@ == (if meta.display_name@.len() == 0 {
            account_id@
        } else {
            meta.display_name@
        }),
{
    if meta.display_name.as_str().is_empty() {
        copy_string(account_id)
    } else {
        copy_string(meta.display_name.as_str())
    }
}

/// How the game's single-instance mutex ended up.
#[derive(Debug, Clone, Copy, PartialEq, Eq, Structural)]
pub enum MutexOutcome {
    /// It was closed.
    Cleared,
    /// It was seen but could not be closed.
    SeenNotCleared,
    /// It was never seen.
    NotSeen,
}

/// The outcome of the background mutex watch.
pub fn mutex_outcome(killed: bool, found_once: bool) -> (r: MutexOutcome)
    ensures
        killed ==> r is Cleared,
        !killed && found_once ==> r is SeenNotCleared,
        !killed && !found_once ==> r is NotSeen,
{
    if killed {
        MutexOutcome::Cleared
    } else if found_once {
        MutexOutcome::SeenNotCleared
    } else {
        MutexOutcome::NotSeen
    }
}

/// The locked agent is killed at most once: after the first kill no step
/// kills a locked agent again, and the first kill is never forgotten.
pub proof fn lemma_agent_killed_once(
    w0: AgentWatch,
    w1: AgentWatch,
    st: WaitStep,
    snap: ProcessSnapshot,
    before: Seq<u32>,
    now: u64,
    policy: WaitPolicy,
)
    requires
        wait_step_spec(w0, w1, st, snap, before, now, policy),
    ensures
        w0.first_agent_killed ==> st.kill_locked is None && w1.first_agent_killed,
        st.kill_locked is Some ==> !w0.first_agent_killed && w1.first_agent_killed
            && w1.locked_agent is None,
        policy.agent_mode == 3 ==> st.kill_locked is None && st.chase_kills@.len() == 0,
{
}


/// The game is asked to start at most once every five seconds: after a
/// step that sends the start command, a following step less than 5000 ms
/// later does not send it again.
pub proof fn lemma_launch_command_spacing(
    w0: AgentWatch,
    w1: AgentWatch,
    w2: AgentWatch,
    st1: WaitStep,
    st2: WaitStep,
    snap1: ProcessSnapshot,
    snap2: ProcessSnapshot,
    before: Seq<u32>,
    t1: u64,
    t2: u64,
    policy: WaitPolicy,
)
    requires
        wait_step_spec(w0, w1, st1, snap1, before, t1, policy),
        wait_step_spec(w1, w2, st2, snap2, before, t2, policy),
        st1.send_launch,
        t1 <= t2,
        t2 < t1 + 5000,
    ensures
        !st2.send_launch,
{
}

/// A step that sends the start command records its own time as the time of
/// the last command, and sends only while more than five client processes
/// run; a step that finds no new game process, with more than five client
/// processes and no command in the last 5000 ms (or none at all), sends it.
pub proof fn lemma_launch_command_when_due(
    w0: AgentWatch,
    w1: AgentWatch,
    st: WaitStep,
    snap: ProcessSnapshot,
    before: Seq<u32>,
    now: u64,
    policy: WaitPolicy,
)
    requires
        wait_step_spec(w0, w1, st, snap, before, now, policy),
    ensures
        st.send_launch ==> w1.last_launch_ms == Some(now) && snap.bnet_count > 5 && st.game_pid is None,
        !st.send_launch ==> w1.last_launch_ms == w0.last_launch_ms,
        st.game_pid is None && snap.bnet_count > 5 && (match w0.last_launch_ms {
            None => true,
            Some(t) => t <= now && now - t >= 5000,
        }) ==> st.send_launch,
        (w0.last_launch_ms matches Some(t) && t <= now && now - t < 5000) ==> !st.send_launch,
{
}

} // verus!
