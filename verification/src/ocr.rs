//! The text recognition that watches a game window: its configuration, the
//! buffers its results wait in, the pacing of its polling, and the run
//! state that lets a stopped worker know it must end.
use vstd::prelude::*;
use crate::account::AccountMeta;
use crate::config::GlobalConfig;
use crate::error::{error_text, AppError};
use crate::text::{copy_string, is_blank, trim_spec};

verus! {

/// What the recognition worker is started with.
#[derive(Debug, Clone)]
pub struct OcrConfig {
    /// Title of the game window to watch.
    pub window_title: String,
    /// The game process, which finds the window more reliably than its title.
    pub target_pid: Option<u32>,
    pub poll_interval_ms: u64,
    pub debug_output: bool,
    pub text_matcher_threshold: u8,
    pub rune_matcher_threshold: u8,
    pub use_cuda: bool,
    pub scene_text_color_rgb: [u8; 3],
    pub scene_text_color_range: [u8; 3],
    pub rune_text_color_rgb: [u8; 3],
    pub rune_text_color_range: [u8; 3],
    pub rune_background_color_rgb: [u8; 3],
    pub rune_background_color_range: [u8; 3],
}

/// Default match threshold for scene text, in percent.
pub fn default_text_matcher_threshold() -> (r: u8)
    ensures
        r == 67,
{
    67
}

/// Default match threshold for rune names, in percent.
pub fn default_rune_matcher_threshold() -> (r: u8)
    ensures
        r == 67,
{
    67
}

/// Default colour of scene text.
pub fn default_scene_text_color_rgb() -> (r: [u8; 3])
    ensures
        r@ == seq![202u8, 23u8, 0u8],
{
    [202, 23, 0]
}

/// Default tolerance around the scene text colour.
pub fn default_scene_text_color_range() -> (r: [u8; 3])
    ensures
        r@ == seq![10u8, 55u8, 55u8],
{
    [10, 55, 55]
}

/// Default colour of rune text.
pub fn default_rune_text_color_rgb() -> (r: [u8; 3])
    ensures
        r@ == seq![255u8, 168u8, 0u8],
{
    [255, 168, 0]
}

/// Default tolerance around the rune text colour.
pub fn default_rune_text_color_range() -> (r: [u8; 3])
    ensures
        r@ == seq![10u8, 100u8, 75u8],
{
    [10, 100, 75]
}

/// Default colour behind rune text.
pub fn default_rune_background_color_rgb() -> (r: [u8; 3])
    ensures
        r@ == seq![0u8, 71u8, 141u8],
{
    [0, 71, 141]
}

/// Default tolerance around the rune background colour.
pub fn default_rune_background_color_range() -> (r: [u8; 3])
    ensures
        r@ == seq![10u8, 55u8, 55u8],
{
    [10, 55, 55]
}

/// The recognition configuration for an account: its window is found by
/// the account's nickname (its id when the nickname is blank) or by the
/// game process; the polling and debug settings come from the global
/// configuration; everything else takes its default, without CUDA.
pub open spec fn config_for(c: OcrConfig, g: GlobalConfig, a: AccountMeta, pid: Option<u32>) -> bool {
    &&& c.window_title@ == (if trim_spec(a.display_name@).len() == 0 {
        a.id@
    } else {
        a.display_name@
    })
    &&& c.target_pid == pid
    &&& c.poll_interval_ms == g.ocr_poll_interval_ms
    &&& c.debug_output == g.ocr_debug_output
    &&& c.text_matcher_threshold == 67
    &&& c.rune_matcher_threshold == 67
    &&& !c.use_cuda
    &&& c.scene_text_color_rgb@ == seq![202u8, 23u8, 0u8]
    &&& c.scene_text_color_range@ == seq![10u8, 55u8, 55u8]
    &&& c.rune_text_color_rgb@ == seq![255u8, 168u8, 0u8]
    &&& c.rune_text_color_range@ == seq![10u8, 100u8, 75u8]
    &&& c.rune_background_color_rgb@ == seq![0u8, 71u8, 141u8]
    &&& c.rune_background_color_range@ == seq![10u8, 55u8, 55u8]
}

impl OcrConfig {
    /// The configuration for watching `account` (see `config_for`).
    pub fn from_account(global_config: &GlobalConfig, account: &AccountMeta, target_pid: Option<u32>) -> (r: Self)
        ensures
            config_for(r, *global_config, *account, target_pid),
            r.poll_interval_ms == global_config.ocr_poll_interval_ms,
            r.debug_output == global_config.ocr_debug_output,
            r.target_pid == target_pid,
    {
        let window_title = if is_blank(account.display_name.as_str()) {
            copy_string(account.id.as_str())
        } else {
            copy_string(account.display_name.as_str())
        };
        OcrConfig {
            window_title,
            target_pid,
            poll_interval_ms: global_config.ocr_poll_interval_ms,
            debug_output: global_config.ocr_debug_output,
            text_matcher_threshold: default_text_matcher_threshold(),
            rune_matcher_threshold: default_rune_matcher_threshold(),
            use_cuda: false,
            scene_text_color_rgb: default_scene_text_color_rgb(),
            scene_text_color_range: default_scene_text_color_range(),
            rune_text_color_rgb: default_rune_text_color_rgb(),
            rune_text_color_range: default_rune_text_color_range(),
            rune_background_color_rgb: default_rune_background_color_rgb(),
            rune_background_color_range: default_rune_background_color_range(),
        }
    }
}

/// The configuration the worker is started with, from the stored global
/// configuration (if any), the check of its target account, and the game
/// process the launcher tracks for that account.  The tracked process wins
/// over the one stored with the account.
pub fn monitor_config(
    global_config: Option<&GlobalConfig>,
    target: Result<Option<AccountMeta>, AppError>,
    tracked_pid: Option<u32>,
) -> (r: Result<OcrConfig, String>)
    ensures
        global_config is None ==> (r matches Err(e) && e@ == "尚未完成首次配置"@),
        global_config matches Some(g) ==> match target {
            Err(err) => r matches Err(e) && e@ == error_text(err),
            Ok(None) => r matches Err(e) && e@ == "OCR 尚未启用"@,
            Ok(Some(a)) => r matches Ok(c) && config_for(
                c,
                *g,
                a,
                if tracked_pid is Some {
                    tracked_pid
                } else {
                    a.running_pid
                },
            ),
        },
{
    let g = match global_config {
        Some(g) => g,
        None => {
            return Err(copy_string("尚未完成首次配置"));
        },
    };
    let account = match target {
        Err(e) => {
            return Err(e.message());
        },
        Ok(None) => {
            return Err(copy_string("OCR 尚未启用"));
        },
        Ok(Some(a)) => a,
    };
    let pid = match tracked_pid {
        Some(p) => Some(p),
        None => account.running_pid,
    };
    Ok(OcrConfig::from_account(g, &account, pid))
}

/// One recognized text.
#[derive(Debug, Clone)]
pub struct OcrTextItem {
    pub text: String,
    pub source: String,
    pub timestamp: String,
    /// Rune number (1-33), when the second channel recognized a rune.
    pub rune_number: Option<u32>,
    /// Screenshot of a high rune, relative to the state directory.
    pub screenshot_path: Option<String>,
    pub is_town: bool,
    pub rune_name_en: Option<String>,
}

// ---------------------------------------------------------------------------
// Result buffers
// ---------------------------------------------------------------------------

/// A buffer keeps this many of the latest results.
pub open spec fn result_capacity() -> nat {
    200
}

/// The latest results of one channel, oldest first, waiting to be fetched.
pub struct ResultBuffer {
    items: Vec<OcrTextItem>,
}

impl ResultBuffer {
    /// The results held, oldest first.
    pub closed spec fn items(&self) -> Seq<OcrTextItem> {
        self.items@
    }

    /// A buffer never holds more than its capacity.
    #[verifier::type_invariant]
    spec fn within_capacity(&self) -> bool {
        self.items@.len() <= result_capacity()
    }

    /// An empty buffer.
    pub fn new() -> (b: Self)
        ensures
            b.items().len() == 0,
    {
        ResultBuffer { items: Vec::new() }
    }

    /// The number of results held.
    pub fn len(&self) -> (n: usize)
        ensures
            n == self.items().len(),
            n <= result_capacity(),
    {
        proof {
            use_type_invariant(self);
        }
        self.items.len()
    }

    /// Adds a result; when more than the capacity are held, the oldest go,
    /// so that the buffer keeps the latest ones in order.
    pub fn push_result(&mut self, item: OcrTextItem)
        ensures
            ({
                let all = old(self).items().push(item);
                final(self).items() == if all.len() > result_capacity() {
                    all.skip(all.len() - result_capacity())
                } else {
                    all
                }
            }),
    {
        proof {
            use_type_invariant(&*self);
        }
        let mut src: Vec<OcrTextItem> = Vec::new();
        std::mem::swap(&mut src, &mut self.items);
        src.push(item);
        if src.len() > 200 {
            let drop = src.len() - 200;
            let ghost all = src@;
            let mut kept: Vec<OcrTextItem> = Vec::new();
            let mut i: usize = 0;
            while src.len() > 0
                invariant
                    all.len() == drop + 200,
                    all.len() <= usize::MAX,
                    i + src@.len() == all.len(),
                    src@ == all.skip(i as int),
                    i <= drop ==> kept@.len() == 0,
                    i > drop ==> kept@ == all.subrange(drop as int, i as int),
                decreases src.len(),
            {
                let x = src.remove(0);
                proof {
                    assert(x == all[i as int]);
                    assert(all.skip(i as int).drop_first() == all.skip(i + 1));
                }
                if i >= drop {
                    kept.push(x);
                    proof {
                        if i == drop {
                            assert(kept@ == all.subrange(drop as int, i + 1));
                        } else {
                            assert(all.subrange(drop as int, i + 1) == all.subrange(drop as int, i as int).push(x));
                        }
                    }
                }
                i += 1;
            }
            assert(all.subrange(drop as int, all.len() as int) == all.skip(drop as int));
            self.items = kept;
        } else {
            self.items = src;
        }
    }

    /// Hands out every result held, oldest first, and empties the buffer.
    pub fn take_all(&mut self) -> (r: Vec<OcrTextItem>)
        ensures
            r@ == old(self).items(),
            final(self).items().len() == 0,
    {
        let mut out: Vec<OcrTextItem> = Vec::new();
        std::mem::swap(&mut out, &mut self.items);
        out
    }
}

/// However many results arrive, a buffer never holds more than its
/// capacity, and it holds the latest of them.
pub proof fn lemma_buffer_bounded(before: Seq<OcrTextItem>, item: OcrTextItem, after: Seq<OcrTextItem>)
    requires
        before.len() <= result_capacity(),
        after == ({
            let all = before.push(item);
            if all.len() > result_capacity() {
                all.skip(all.len() - result_capacity())
            } else {
                all
            }
        }),
    ensures
        after.len() <= result_capacity(),
        after.len() > 0 && after.last() == item,
{
}

// ---------------------------------------------------------------------------
// Pacing the polls
// ---------------------------------------------------------------------------

/// The next polling interval: a poll that took more than half the current
/// interval lengthens it by 100 ms, up to four times the configured one;
/// otherwise it shortens by 50 ms, down to the configured one.  All times
/// in milliseconds.
pub open spec fn next_interval_spec(current: nat, base: nat, elapsed: nat) -> nat {
    if elapsed > current / 2 {
        if current + 100 < base * 4 {
            current + 100
        } else {
            base * 4
        }
    } else {
        let shorter = if current >= 50 {
            (current - 50) as nat
        } else {
            0
        };
        if shorter > base {
            shorter
        } else {
            base
        }
    }
}

/// The polling interval after a poll that took `elapsed_ms` (see
/// `next_interval_spec`).
pub fn next_interval(current_ms: u64, base_ms: u64, elapsed_ms: u64) -> (r: u64)
    requires
        base_ms * 4 <= u64::MAX,
        current_ms + 100 <= u64::MAX,
    ensures
        r == next_interval_spec(current_ms as nat, base_ms as nat, elapsed_ms as nat),
{
    if elapsed_ms > current_ms / 2 {
        let grown = current_ms + 100;
        let cap = base_ms * 4;
        if grown < cap {
            grown
        } else {
            cap
        }
    } else {
        let shorter = if current_ms >= 50 {
            current_ms - 50
        } else {
            0
        };
        if shorter > base_ms {
            shorter
        } else {
            base_ms
        }
    }
}

/// The polling interval stays between the configured interval and four
/// times it, whatever the polls take.
pub proof fn lemma_interval_stays_in_range(current: nat, base: nat, elapsed: nat)
    requires
        base <= current <= base * 4,
    ensures
        base <= next_interval_spec(current, base, elapsed) <= base * 4,
{
}

/// How long to sleep after a poll: what is left of the interval.
pub fn sleep_after_poll(interval_ms: u64, elapsed_ms: u64) -> (r: u64)
    ensures
        r == (if elapsed_ms < interval_ms {
            interval_ms - elapsed_ms
        } else {
            0
        }),
{
    if elapsed_ms < interval_ms {
        interval_ms - elapsed_ms
    } else {
        0
    }
}

/// A poll that has not reported for this long is taken as hung: three
/// polling intervals, and at least five seconds.
pub fn watchdog_timeout_ms(poll_ms: u64) -> (r: u64)
    requires
        poll_ms * 3 <= u64::MAX,
    ensures
        r == (if poll_ms * 3 > 5000 {
            poll_ms * 3
        } else {
            5000
        }),
{
    let t = poll_ms * 3;
    if t > 5000 {
        t
    } else {
        5000
    }
}

// ---------------------------------------------------------------------------
// Running and stopping the worker
// ---------------------------------------------------------------------------

/// Whether a worker runs, and the generation of the latest start or stop.
#[derive(Debug, Clone, Copy)]
pub struct OcrRunState {
    pub running: bool,
    pub generation: u64,
}

impl OcrRunState {
    /// Nothing running yet.
    pub fn new() -> (s: Self)
        ensures
            !s.running,
            s.generation == 0,
    {
        OcrRunState { running: false, generation: 0 }
    }

    /// Marks a worker as running; refused while one runs.
    pub fn begin(&mut self) -> (r: Result<(), String>)
        ensures
            old(self).running ==> (r matches Err(e) && e@ == "OCR 监控器已在运行中"@) && *final(self)
                == *old(self),
            !old(self).running ==> r is Ok && final(self).running && final(self).generation
                == old(self).generation,
    {
        if self.running {
            return Err(copy_string("OCR 监控器已在运行中"));
        }
        self.running = true;
        Ok(())
    }

    /// Opens a new generation for the worker being started and returns it.
    pub fn next_generation(&mut self) -> (g: u64)
        ensures
            g == (if old(self).generation == u64::MAX {
                0
            } else {
                old(self).generation + 1
            }),
            final(self).generation == g,
            final(self).running == old(self).running,
    {
        self.generation = self.generation.wrapping_add(1);
        self.generation
    }

    /// Stops whatever runs: a new generation starts, so every worker of an
    /// earlier one ends.
    pub fn stop(&mut self)
        ensures
            !final(self).running,
            final(self).generation == (if old(self).generation == u64::MAX {
                0
            } else {
                old(self).generation + 1
            }),
    {
        self.generation = self.generation.wrapping_add(1);
        self.running = false;
    }

    /// A worker of generation `generation` has ended: the state counts as
    /// stopped only if no newer start or stop came since.
    pub fn mark_generation_stopped(&mut self, generation: u64)
        ensures
            final(self).generation == old(self).generation,
            final(self).running == (old(self).running && old(self).generation != generation),
    {
        if self.generation == generation {
            self.running = false;
        }
    }

    /// Whether the worker of `generation` goes on polling.
    pub fn should_continue(&self, generation: u64) -> (r: bool)
        ensures
            r == (self.running && self.generation == generation),
    {
        self.running && self.generation == generation
    }
}

/// After a stop, no worker started before it goes on polling, and a worker
/// started after it is not stopped by an earlier worker ending.
pub proof fn lemma_stop_ends_older_workers(before: OcrRunState, after_stop: OcrRunState, old_gen: u64)
    requires
        before.generation < u64::MAX,
        old_gen <= before.generation,
        !after_stop.running,
        after_stop.generation == before.generation + 1,
    ensures
        !(after_stop.running && after_stop.generation == old_gen),
        after_stop.generation != old_gen,
{
}


/// The recognition follows the user's settings: the configuration built for
/// an account polls at the globally configured interval, writes debug output
/// exactly when that is configured, and watches the game process given.
pub proof fn lemma_ocr_config_follows_settings(c: OcrConfig, g: GlobalConfig, a: AccountMeta, pid: Option<u32>)
    requires
        config_for(c, g, a, pid),
    ensures
        c.poll_interval_ms == g.ocr_poll_interval_ms,
        c.debug_output == g.ocr_debug_output,
        c.target_pid == pid,
        !c.use_cuda,
{
}

/// The monitor's configuration polls at the globally configured interval:
/// whatever `monitor_config` hands out for a stored configuration comes
/// with that configuration's polling interval and debug setting.
pub proof fn lemma_monitor_config_interval(g: GlobalConfig, a: AccountMeta, tracked_pid: Option<u32>, c: OcrConfig)
    requires
        config_for(
            c,
            g,
            a,
            if tracked_pid is Some {
                tracked_pid
            } else {
                a.running_pid
            },
        ),
    ensures
        c.poll_interval_ms == g.ocr_poll_interval_ms,
        c.debug_output == g.ocr_debug_output,
        tracked_pid is Some ==> c.target_pid == tracked_pid,
{
}

} // verus!
