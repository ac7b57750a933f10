//! The background daemon's decisions: cache freshness, idleness, the
//! singleton probe and the refresh loop, as functions of what was observed.
use vstd::prelude::*;

use crate::text::{parse_i32, parse_i32_spec, trim, trimmed};

verus! {

/// Seconds between two refreshes of the cache.
pub const REFRESH_INTERVAL_SECS: u64 = 40;

/// Age beyond which the cache is stale: the refresh interval and a 30 s buffer.
pub const CACHE_MAX_AGE_SECS: u64 = 70;

/// Heartbeat age beyond which the daemon is idle: three hours.
pub const IDLE_TIMEOUT_SECS: u64 = 10800;

/// Seconds the daemon sleeps between two looks at the stop flag.
pub const SLEEP_STEP_SECS: u64 = 1;

/// Name of the cache file in the runtime directory.
pub const CACHE_FILE: &'static str = "recipes.cache";

/// Name of the file the cache is written to before it is renamed into place.
pub const CACHE_TMP_FILE: &'static str = "recipes.cache.tmp";

/// Name of the heartbeat file in the runtime directory.
pub const HEARTBEAT_FILE: &'static str = "heartbeat";

/// Name of the PID file in the runtime directory.
pub const PID_FILE: &'static str = "daemon.pid";

/// A point in time: seconds and nanoseconds since the Unix epoch.
#[derive(Clone, Copy, Debug)]
pub struct Moment {
    pub secs: u64,
    pub nanos: u32,
}

/// A moment in nanoseconds.
pub open spec fn nanos_of(m: Moment) -> int {
    m.secs * 1_000_000_000 + m.nanos
}

/// How long before `now` the moment `then` lies; zero if it lies after it.
pub open spec fn age_nanos(then: Moment, now: Moment) -> int {
    if nanos_of(now) >= nanos_of(then) {
        nanos_of(now) - nanos_of(then)
    } else {
        0
    }
}

/// Whether `then` lies more than `limit_secs` seconds before `now`.
pub open spec fn older_than(then: Moment, now: Moment, limit_secs: u64) -> bool {
    age_nanos(then, now) > limit_secs * 1_000_000_000
}

fn nanos_exec(m: Moment) -> (r: u128)
    ensures
        r == nanos_of(m),
{
    m.secs as u128 * 1_000_000_000 + m.nanos as u128
}

/// Whether `then` lies more than `limit_secs` seconds before `now`.
pub fn is_older_than(then: Moment, now: Moment, limit_secs: u64) -> (r: bool)
    ensures
        r == older_than(then, now, limit_secs),
{
    let t = nanos_exec(then);
    let n = nanos_exec(now);
    let age: u128 = if n >= t {
        n - t
    } else {
        0
    };
    age > limit_secs as u128 * 1_000_000_000
}

/// The cache file as a reader finds it: its content and, where the platform
/// gives it, its modification time.
pub struct CacheEntry {
    pub content: String,
    pub modified: Option<Moment>,
}

/// Whether a cache entry modified at `modified` may be read at `now`.
pub open spec fn cache_fresh(modified: Option<Moment>, now: Moment) -> bool {
    match modified {
        Some(m) => !older_than(m, now, CACHE_MAX_AGE_SECS),
        None => true,
    }
}

/// What a read of the cache yields: nothing where there is no cache file or
/// it is stale, else its content.
pub open spec fn cache_read(entry: Option<CacheEntry>, now: Moment) -> Option<Seq<char>> {
    match entry {
        Some(e) => if cache_fresh(e.modified, now) {
            Some(e.content@)
        } else {
            None
        },
        None => None,
    }
}

/// The cache entry that writing `content` at `now` leaves.
pub fn write_cache_entry(content: &str, now: Moment) -> (r: CacheEntry)
    ensures
        r.content@ == content@,
        r.modified == Some(now),
{
    CacheEntry { content: content.to_owned(), modified: Some(now) }
}

/// Reads the cache: `None` where it is missing or stale.
pub fn read_cache_entry(entry: &Option<CacheEntry>, now: Moment) -> (r: Option<String>)
    ensures
        match r {
            Some(c) => cache_read(*entry, now) == Some(c@),
            None => cache_read(*entry, now) is None,
        },
{
    match entry {
        None => None,
        Some(e) => {
            let fresh = match e.modified {
                Some(m) => !is_older_than(m, now, CACHE_MAX_AGE_SECS),
                None => true,
            };
            if fresh {
                Some(e.content.clone())
            } else {
                None
            }
        },
    }
}

/// Whether a heartbeat last touched at `heartbeat` shows the daemon idle at
/// `now`: no heartbeat file, or no modification time, is never idle.
pub open spec fn idle(heartbeat: Option<Moment>, now: Moment, timeout_secs: u64) -> bool {
    match heartbeat {
        Some(m) => older_than(m, now, timeout_secs),
        None => false,
    }
}

/// Whether the heartbeat is older than `timeout_secs`.
pub fn check_idle_with_timeout(heartbeat: Option<Moment>, now: Moment, timeout_secs: u64) -> (r:
    bool)
    ensures
        r == idle(heartbeat, now, timeout_secs),
{
    match heartbeat {
        Some(m) => is_older_than(m, now, timeout_secs),
        None => false,
    }
}

/// Whether the heartbeat is older than three hours.
pub fn check_idle(heartbeat: Option<Moment>, now: Moment) -> (r: bool)
    ensures
        r == idle(heartbeat, now, IDLE_TIMEOUT_SECS),
{
    check_idle_with_timeout(heartbeat, now, IDLE_TIMEOUT_SECS)
}

/// The text of an optional string slice.
pub open spec fn str_text(o: Option<&str>) -> Option<Seq<char>> {
    match o {
        Some(t) => Some(t@),
        None => None,
    }
}

/// The process to probe for a running daemon: the positive identifier the PID
/// file holds as decimal text, white space around it ignored.
pub open spec fn probe_target_spec(pid_file: Option<Seq<char>>) -> Option<i32> {
    match pid_file {
        Some(t) => match parse_i32_spec(trimmed(t)) {
            Some(p) => if p > 0 {
                Some(p)
            } else {
                None
            },
            None => None,
        },
        None => None,
    }
}

/// The process whose liveness decides whether a daemon runs; `None` where
/// there is no PID file or it holds no process identifier, which means that
/// none runs.
pub fn probe_target(pid_file: Option<&str>) -> (r: Option<i32>)
    ensures
        r == probe_target_spec(str_text(pid_file)),
{
    match pid_file {
        None => None,
        Some(t) => match parse_i32(trim(t)) {
            Some(p) => if p > 0 {
                Some(p)
            } else {
                None
            },
            None => None,
        },
    }
}

/// Whether a daemon runs: the PID file names a process, and the probe of
/// that process found it alive.
pub fn is_daemon_running(pid_file: Option<&str>, alive: bool) -> (r: bool)
    ensures
        r == (probe_target_spec(str_text(pid_file)) is Some && alive),
{
    probe_target(pid_file).is_some() && alive
}

/// Where the refresh loop stands.
#[derive(Clone, Copy, Debug, PartialEq, Eq, Structural)]
pub enum DaemonState {
    /// About to refresh the cache.
    Refreshing,
    /// Sleeping between refreshes, `elapsed_secs` into the interval.
    Waiting { elapsed_secs: u64 },
    /// The interval is over; the heartbeat's age decides what follows.
    CheckingIdle,
    /// The loop has ended.
    Stopped,
}

/// What the loop does next.
#[derive(Clone, Copy, Debug, PartialEq, Eq, Structural)]
pub enum DaemonAction {
    /// Discover the cookbooks, aggregate their recipes and write the cache.
    RefreshCache,
    /// Sleep one step.
    Sleep { secs: u64 },
    /// Look at the heartbeat and report whether it is idle.
    CheckIdle,
    /// Remove the PID file and end.
    Exit,
}

/// One step of the refresh loop: from the current state, whether a stop was
/// requested, and (after a heartbeat check) whether the daemon is idle, the
/// next state and the action that leads there.
pub open spec fn daemon_step_spec(state: DaemonState, stop_requested: bool, idle: bool) -> (
    DaemonState,
    DaemonAction,
) {
    match state {
        DaemonState::Refreshing => (
            DaemonState::Waiting { elapsed_secs: 0 },
            DaemonAction::RefreshCache,
        ),
        DaemonState::Waiting { elapsed_secs } => if elapsed_secs >= REFRESH_INTERVAL_SECS {
            (DaemonState::CheckingIdle, DaemonAction::CheckIdle)
        } else if stop_requested {
            (DaemonState::Stopped, DaemonAction::Exit)
        } else {
            (
                DaemonState::Waiting { elapsed_secs: (elapsed_secs + SLEEP_STEP_SECS) as u64 },
                DaemonAction::Sleep { secs: SLEEP_STEP_SECS },
            )
        },
        DaemonState::CheckingIdle => if idle {
            (DaemonState::Stopped, DaemonAction::Exit)
        } else {
            (DaemonState::Waiting { elapsed_secs: 0 }, DaemonAction::RefreshCache)
        },
        DaemonState::Stopped => (DaemonState::Stopped, DaemonAction::Exit),
    }
}

/// The next state and action of the refresh loop.
pub fn daemon_step(state: DaemonState, stop_requested: bool, idle: bool) -> (r: (
    DaemonState,
    DaemonAction,
))
    ensures
        r == daemon_step_spec(state, stop_requested, idle),
{
    match state {
        DaemonState::Refreshing => (
            DaemonState::Waiting { elapsed_secs: 0 },
            DaemonAction::RefreshCache,
        ),
        DaemonState::Waiting { elapsed_secs } => if elapsed_secs >= REFRESH_INTERVAL_SECS {
            (DaemonState::CheckingIdle, DaemonAction::CheckIdle)
        } else if stop_requested {
            (DaemonState::Stopped, DaemonAction::Exit)
        } else {
            (
                DaemonState::Waiting { elapsed_secs: elapsed_secs + SLEEP_STEP_SECS },
                DaemonAction::Sleep { secs: SLEEP_STEP_SECS },
            )
        },
        DaemonState::CheckingIdle => if idle {
            (DaemonState::Stopped, DaemonAction::Exit)
        } else {
            (DaemonState::Waiting { elapsed_secs: 0 }, DaemonAction::RefreshCache)
        },
        DaemonState::Stopped => (DaemonState::Stopped, DaemonAction::Exit),
    }
}

/// Round trip: the entry that writing `content` at `t` leaves reads back at
/// `t` as exactly `content`.
pub proof fn lemma_cache_round_trip(content: Seq<char>, t: Moment, e: CacheEntry)
    requires
        e.content@ == content,
        e.modified == Some(t),
    ensures
        cache_read(Some(e), t) == Some(content),
{
}

/// Staleness: an entry modified more than the maximum age before `now`
/// reads as nothing; one modified at most that long before reads as its
/// content.
pub proof fn lemma_cache_staleness(e: CacheEntry, m: Moment, now: Moment)
    requires
        e.modified == Some(m),
    ensures
        age_nanos(m, now) > CACHE_MAX_AGE_SECS * 1_000_000_000 ==> cache_read(Some(e), now) is None,
        age_nanos(m, now) <= CACHE_MAX_AGE_SECS * 1_000_000_000 ==> cache_read(Some(e), now) == Some(
            e.content@,
        ),
{
}

/// Idleness: a heartbeat touched at `now` is never idle, a missing heartbeat
/// is never idle, and one older than the timeout is idle.
pub proof fn lemma_idle_detection(m: Moment, now: Moment, timeout_secs: u64)
    ensures
        !idle(Some(now), now, timeout_secs),
        !idle(None, now, timeout_secs),
        age_nanos(m, now) > timeout_secs * 1_000_000_000 ==> idle(Some(m), now, timeout_secs),
{
}

/// Singleton probe: a PID file whose trimmed text holds a character that is
/// neither a digit nor a sign names no process, so no daemon counts as
/// running, whatever the probe would say.
pub proof fn lemma_non_numeric_pid_file(t: Seq<char>, i: int)
    requires
        0 <= i < trimmed(t).len(),
        !crate::text::is_digit(trimmed(t)[i]),
        trimmed(t)[i] != '+',
        trimmed(t)[i] != '-',
    ensures
        probe_target_spec(Some(t)) is None,
{
    let s = trimmed(t);
    if s.len() > 0 && (s[0] == '-' || s[0] == '+') {
        let body = s.drop_first();
        assert(i > 0);
        assert(body[i - 1] == s[i]);
    }
}

} // verus!
