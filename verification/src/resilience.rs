//! The connection-resilience escalation ladder: keep retrying, then
//! power-cycle the adapter, then reboot the host, each rung rate-limited.
//!
//! Instants are UTC times counted in nanoseconds since the Unix epoch.

use vstd::prelude::*;
use vstd::seq_lib::*;
use vstd::string::*;

verus! {

broadcast use vstd::seq_lib::group_filter_ensures;

/// Nanoseconds in a second.
pub const NANOS_PER_SEC: i128 = 1_000_000_000;

/// Consecutive failures (within the window) that trigger an adapter power-cycle.
pub const POWER_CYCLE_THRESHOLD: u32 = 5;

/// The rolling window in which those failures must fall: 10 minutes.
pub const POWER_CYCLE_WINDOW: i128 = 600_000_000_000;

/// Least time between two power-cycles: 15 minutes.
pub const POWER_CYCLE_RATE_LIMIT: i128 = 900_000_000_000;

/// Further consecutive failures, after a power-cycle, that trigger a reboot.
pub const REBOOT_EXTRA_FAILURES: u32 = 10;

/// Least time between two reboots: 30 minutes.
pub const REBOOT_RATE_LIMIT: i128 = 1_800_000_000_000;

/// Most reboots in any 24 hours.
pub const REBOOT_MAX_24H: usize = 3;

/// The window over which reboots are counted: 24 hours.
pub const REBOOT_24H_WINDOW: i128 = 86_400_000_000_000;

/// The recovery step the ladder asks for after a failure.
#[derive(Debug, Clone, Copy, PartialEq, Eq, Structural)]
pub enum LadderAction {
    /// Keep retrying with backoff.
    NoEscalation,
    /// Power-cycle the BLE adapter.
    PowerCycle,
    /// Reboot the host.
    Reboot,
    /// The 24-hour reboot cap is reached: stop escalating, keep retrying.
    KeepRetrying,
}

/// Whether `then` lies less than `limit` before `now` (a later `then` always does).
pub open spec fn recent(now: int, limit: int) -> spec_fn(i128) -> bool {
    |then: i128| now - then < limit
}

/// Whether less than `limit` nanoseconds have passed from `then` to `now`.
pub fn elapsed_below(now: i128, then: i128, limit: i128) -> (below: bool)
    requires
        limit > 0,
    ensures
        below == (now - then < limit),
{
    if now < then {
        true
    } else if then < 0 && now >= 0 {
        now < then + limit
    } else {
        now - then < limit
    }
}

/// The entries of `v` that lie less than `limit` before `now`, in order.
pub fn entries_within(v: &Vec<i128>, now: i128, limit: i128) -> (kept: Vec<i128>)
    requires
        limit > 0,
    ensures
        kept@ == v@.filter(recent(now as int, limit as int)),
{
    let mut kept: Vec<i128> = Vec::new();
    let mut i: usize = 0;
    while i < v.len()
        invariant
            i <= v.len(),
            limit > 0,
            kept@ == v@.take(i as int).filter(recent(now as int, limit as int)),
        decreases v.len() - i,
    {
        proof {
            assert(v@.take(i + 1) =~= v@.take(i as int).push(v@[i as int]));
            v@.take(i as int).lemma_filter_push(v@[i as int], recent(now as int, limit as int));
        }
        if elapsed_below(now, v[i], limit) {
            kept.push(v[i]);
        }
        i = i + 1;
    }
    assert(v@.take(v@.len() as int) =~= v@);
    kept
}

/// Escalation state that survives restarts: the last power-cycle and the
/// recent reboots.
#[derive(Debug, Clone, PartialEq, Eq, Default)]
pub struct ResilienceState {
    /// When the adapter was last power-cycled.
    pub last_power_cycle_at: Option<i128>,
    /// When the host was rebooted (within the last 24 hours once pruned).
    pub reboot_timestamps: Vec<i128>,
}

impl ResilienceState {
    /// Drops the reboots that lie 24 hours or more before `now`.
    pub fn prune_reboots(&mut self, now: i128)
        ensures
            final(self).last_power_cycle_at == old(self).last_power_cycle_at,
            final(self).reboot_timestamps@ == old(self).reboot_timestamps@.filter(
                recent(now as int, REBOOT_24H_WINDOW as int),
            ),
    {
        let kept = entries_within(&self.reboot_timestamps, now, REBOOT_24H_WINDOW);
        self.reboot_timestamps = kept;
    }
}

/// The ladder as the contracts see it.
pub struct LadderView {
    pub consecutive_failures: nat,
    /// The failures of the current streak within the power-cycle window.
    pub failure_timestamps: Seq<i128>,
    pub last_power_cycle_at: Option<i128>,
    pub reboot_timestamps: Seq<i128>,
}

/// Whether the failure count and the failures within the window call for a power-cycle.
pub open spec fn power_cycle_due(failures: nat, within_window: nat) -> bool {
    failures >= POWER_CYCLE_THRESHOLD && within_window >= POWER_CYCLE_THRESHOLD
}

/// Whether the last power-cycle lies less than 15 minutes before `now`.
pub open spec fn power_cycle_rate_limited(last: Option<i128>, now: i128) -> bool {
    match last {
        Some(t) => now - t < POWER_CYCLE_RATE_LIMIT,
        None => false,
    }
}

/// Whether a reboot is held back: one lies less than 30 minutes before
/// `now`, or the cap of reboots within 24 hours is reached.
pub open spec fn reboot_rate_limited(reboots_24h: Seq<i128>, now: i128) -> bool {
    reboots_24h.filter(recent(now as int, REBOOT_RATE_LIMIT as int)).len() > 0
        || reboots_24h.len() >= REBOOT_MAX_24H
}

/// One connection failure at `now`: the ladder after it and the action it asks for.
///
/// The failure extends the streak and the window (pruned to 10 minutes);
/// the reboots are pruned to 24 hours. Then, in order: five failures within
/// the window power-cycle unless one happened less than 15 minutes ago;
/// fifteen failures after a power-cycle reboot unless rate-limited; a
/// reached reboot cap keeps retrying; otherwise nothing.
pub open spec fn spec_after_failure(v: LadderView, now: i128) -> (LadderView, LadderAction) {
    let failures = v.consecutive_failures + 1;
    let window = v.failure_timestamps.push(now).filter(
        recent(now as int, POWER_CYCLE_WINDOW as int),
    );
    let reboots = v.reboot_timestamps.filter(recent(now as int, REBOOT_24H_WINDOW as int));
    let base = LadderView {
        consecutive_failures: failures,
        failure_timestamps: window,
        last_power_cycle_at: v.last_power_cycle_at,
        reboot_timestamps: reboots,
    };
    if power_cycle_due(failures, window.len()) && !power_cycle_rate_limited(
        v.last_power_cycle_at,
        now,
    ) {
        (LadderView { last_power_cycle_at: Some(now), ..base }, LadderAction::PowerCycle)
    } else if v.last_power_cycle_at is Some && failures >= POWER_CYCLE_THRESHOLD
        + REBOOT_EXTRA_FAILURES && !reboot_rate_limited(reboots, now) {
        (LadderView { reboot_timestamps: reboots.push(now), ..base }, LadderAction::Reboot)
    } else if reboots.len() >= REBOOT_MAX_24H {
        (base, LadderAction::KeepRetrying)
    } else {
        (base, LadderAction::NoEscalation)
    }
}

/// A reboot that was due but held back.
#[derive(Debug, Clone, Copy, PartialEq, Eq, Structural)]
pub struct RebootSkip {
    /// Whether a reboot lies less than 30 minutes back.
    pub within_30min: bool,
    /// Reboots less than 24 hours back.
    pub within_24h: usize,
}

/// The rungs of one failure that were due but held back by their rate limits.
#[derive(Debug, Clone, Copy, PartialEq, Eq, Structural)]
pub struct RungSkips {
    /// The last power-cycle, when a power-cycle was due but came too soon after it.
    pub power_cycle_skipped: Option<i128>,
    /// Set when a reboot was due but rate-limited.
    pub reboot_skipped: Option<RebootSkip>,
}

/// The rungs that a failure at `now` finds due but rate-limited: a
/// power-cycle held back by the last one, and (when no power-cycle is asked
/// for) a reboot held back by one in the last 30 minutes or by the 24-hour cap.
pub open spec fn spec_rung_skips(v: LadderView, now: i128) -> RungSkips {
    let failures = v.consecutive_failures + 1;
    let window = v.failure_timestamps.push(now).filter(
        recent(now as int, POWER_CYCLE_WINDOW as int),
    );
    let reboots = v.reboot_timestamps.filter(recent(now as int, REBOOT_24H_WINDOW as int));
    let due = power_cycle_due(failures, window.len());
    let limited = power_cycle_rate_limited(v.last_power_cycle_at, now);
    if due && !limited {
        RungSkips { power_cycle_skipped: None, reboot_skipped: None }
    } else {
        RungSkips {
            power_cycle_skipped: if due {
                v.last_power_cycle_at
            } else {
                None
            },
            reboot_skipped: if v.last_power_cycle_at is Some && failures >= POWER_CYCLE_THRESHOLD
                + REBOOT_EXTRA_FAILURES && reboot_rate_limited(reboots, now) {
                Some(
                    RebootSkip {
                        within_30min: reboots.filter(
                            recent(now as int, REBOOT_RATE_LIMIT as int),
                        ).len() > 0,
                        within_24h: reboots.len() as usize,
                    },
                )
            } else {
                None
            },
        }
    }
}

/// The ladder after a successful connection: the streak and window are
/// cleared, the persisted state is kept.
pub open spec fn spec_after_success(v: LadderView) -> LadderView {
    LadderView {
        consecutive_failures: 0,
        failure_timestamps: Seq::empty(),
        last_power_cycle_at: v.last_power_cycle_at,
        reboot_timestamps: v.reboot_timestamps,
    }
}

/// Counts connection failures and decides when to escalate.
pub struct ResilienceLadder {
    consecutive_failures: u32,
    failure_timestamps: Vec<i128>,
    state: ResilienceState,
}

impl View for ResilienceLadder {
    type V = LadderView;

    closed spec fn view(&self) -> LadderView {
        LadderView {
            consecutive_failures: self.consecutive_failures as nat,
            failure_timestamps: self.failure_timestamps@,
            last_power_cycle_at: self.state.last_power_cycle_at,
            reboot_timestamps: self.state.reboot_timestamps@,
        }
    }
}

impl ResilienceLadder {
    #[verifier::type_invariant]
    closed spec fn window_within_streak(self) -> bool {
        self.failure_timestamps@.len() <= self.consecutive_failures
    }

    /// A ladder with no failures and no recovery history.
    pub fn new() -> (ladder: Self)
        ensures
            ladder@.consecutive_failures == 0,
            ladder@.failure_timestamps == Seq::<i128>::empty(),
            ladder@.last_power_cycle_at is None,
            ladder@.reboot_timestamps == Seq::<i128>::empty(),
    {
        ResilienceLadder {
            consecutive_failures: 0,
            failure_timestamps: Vec::new(),
            state: ResilienceState { last_power_cycle_at: None, reboot_timestamps: Vec::new() },
        }
    }

    /// A ladder with no failures that continues from persisted state.
    pub fn from_state(state: ResilienceState) -> (ladder: Self)
        ensures
            ladder@.consecutive_failures == 0,
            ladder@.failure_timestamps == Seq::<i128>::empty(),
            ladder@.last_power_cycle_at == state.last_power_cycle_at,
            ladder@.reboot_timestamps == state.reboot_timestamps@,
    {
        ResilienceLadder { consecutive_failures: 0, failure_timestamps: Vec::new(), state }
    }

    /// The state to persist.
    pub fn state(&self) -> (state: &ResilienceState)
        ensures
            state.last_power_cycle_at == self@.last_power_cycle_at,
            state.reboot_timestamps@ == self@.reboot_timestamps,
    {
        &self.state
    }

    /// Failures since the last successful connection.
    pub fn consecutive_failures(&self) -> (n: u32)
        ensures
            n == self@.consecutive_failures,
    {
        self.consecutive_failures
    }

    /// Records a successful connection: the streak and the window are cleared.
    pub fn on_connection_success(&mut self)
        ensures
            final(self)@ == spec_after_success(old(self)@),
    {
        self.failure_timestamps = Vec::new();
        self.consecutive_failures = 0;
    }

    /// Records a connection failure at `now` and returns the recovery step.
    pub fn on_connection_failure(&mut self, now: i128) -> (action: LadderAction)
        requires
            old(self)@.consecutive_failures < u32::MAX,
        ensures
            (final(self)@, action) == spec_after_failure(old(self)@, now),
    {
        let (action, _skips) = self.on_connection_failure_with_skips(now);
        action
    }

    /// Records a connection failure at `now` and returns the recovery step,
    /// with the rungs that were due but held back by their rate limits.
    pub fn on_connection_failure_with_skips(&mut self, now: i128) -> (res: (
        LadderAction,
        RungSkips,
    ))
        requires
            old(self)@.consecutive_failures < u32::MAX,
        ensures
            (final(self)@, res.0) == spec_after_failure(old(self)@, now),
            res.1 == spec_rung_skips(old(self)@, now),
    {
        proof {
            use_type_invariant(&*self);
        }
        let ghost v = self@;
        let failures = self.consecutive_failures + 1;
        let mut window = entries_within(&self.failure_timestamps, now, POWER_CYCLE_WINDOW);
        window.push(now);
        proof {
            v.failure_timestamps.lemma_filter_push(
                now,
                recent(now as int, POWER_CYCLE_WINDOW as int),
            );
        }
        let mut reboots = entries_within(&self.state.reboot_timestamps, now, REBOOT_24H_WINDOW);
        self.consecutive_failures = failures;
        self.failure_timestamps = window;

        let power_cycle_limited = match self.state.last_power_cycle_at {
            Some(last) => elapsed_below(now, last, POWER_CYCLE_RATE_LIMIT),
            None => false,
        };
        let power_cycle_due = failures >= POWER_CYCLE_THRESHOLD && self.failure_timestamps.len()
            >= POWER_CYCLE_THRESHOLD as usize;
        if power_cycle_due && !power_cycle_limited {
            self.state.last_power_cycle_at = Some(now);
            self.state.reboot_timestamps = reboots;
            return (
                LadderAction::PowerCycle,
                RungSkips { power_cycle_skipped: None, reboot_skipped: None },
            );
        }
        let power_cycle_skipped = if power_cycle_due {
            self.state.last_power_cycle_at
        } else {
            None
        };
        let mut reboot_skipped: Option<RebootSkip> = None;
        if self.state.last_power_cycle_at.is_some() && failures >= POWER_CYCLE_THRESHOLD
            + REBOOT_EXTRA_FAILURES {
            let within_30min = entries_within(&reboots, now, REBOOT_RATE_LIMIT).len() > 0;
            let within_24h = reboots.len();
            if !(within_30min || within_24h >= REBOOT_MAX_24H) {
                reboots.push(now);
                self.state.reboot_timestamps = reboots;
                return (
                    LadderAction::Reboot,
                    RungSkips { power_cycle_skipped, reboot_skipped: None },
                );
            }
            reboot_skipped = Some(RebootSkip { within_30min, within_24h });
        }
        let cap_reached = reboots.len() >= REBOOT_MAX_24H;
        self.state.reboot_timestamps = reboots;
        let skips = RungSkips { power_cycle_skipped, reboot_skipped };
        if cap_reached {
            (LadderAction::KeepRetrying, skips)
        } else {
            (LadderAction::NoEscalation, skips)
        }
    }
}

impl Default for ResilienceLadder {
    /// The same as [`ResilienceLadder::new`].
    fn default() -> (ladder: Self)
        ensures
            ladder@.consecutive_failures == 0,
            ladder@.failure_timestamps == Seq::<i128>::empty(),
            ladder@.last_power_cycle_at is None,
            ladder@.reboot_timestamps == Seq::<i128>::empty(),
    {
        Self::new()
    }
}

/// Where a device's escalation state is persisted.
pub struct ResilienceStateStore {
    path: String,
}

/// The state file of a device:
/// `/var/lib/rshunterbtt/<device_name>-resilience-state.json`.
pub open spec fn spec_state_path(device_name: Seq<char>) -> Seq<char> {
    "/var/lib/rshunterbtt/"@ + device_name + "-resilience-state.json"@
}

impl View for ResilienceStateStore {
    type V = Seq<char>;

    closed spec fn view(&self) -> Seq<char> {
        self.path@
    }
}

impl ResilienceStateStore {
    /// The store for a device's standard state file.
    pub fn new(device_name: &str) -> (store: Self)
        ensures
            store@ == spec_state_path(device_name@),
    {
        let mut path = String::from_str("/var/lib/rshunterbtt/");
        path.append(device_name);
        path.append("-resilience-state.json");
        ResilienceStateStore { path }
    }

    /// A store at an explicit path.
    pub fn with_path(path: &str) -> (store: Self)
        ensures
            store@ == path@,
    {
        ResilienceStateStore { path: String::from_str(path) }
    }

    /// The state file's path.
    pub fn path(&self) -> (path: &str)
        ensures
            path@ == self@,
    {
        self.path.as_str()
    }
}

/// Below five consecutive failures the ladder never escalates: the first
/// four failures of a streak neither power-cycle nor reboot.
pub proof fn lemma_no_escalation_before_threshold(v: LadderView, now: i128)
    requires
        v.consecutive_failures + 1 < POWER_CYCLE_THRESHOLD,
    ensures
        spec_after_failure(v, now).1 == LadderAction::NoEscalation || spec_after_failure(v, now).1
            == LadderAction::KeepRetrying,
{
}

/// A power-cycle needs five consecutive failures, at least five of them
/// less than 10 minutes before it, and no power-cycle in the 15 minutes
/// before it; it is then recorded at `now`.
pub proof fn lemma_power_cycle_conditions(v: LadderView, now: i128)
    requires
        spec_after_failure(v, now).1 == LadderAction::PowerCycle,
    ensures
        spec_after_failure(v, now).0.consecutive_failures >= POWER_CYCLE_THRESHOLD,
        spec_after_failure(v, now).0.failure_timestamps.len() >= POWER_CYCLE_THRESHOLD,
        forall|i: int|
            0 <= i < spec_after_failure(v, now).0.failure_timestamps.len() ==> now
                - #[trigger] spec_after_failure(v, now).0.failure_timestamps[i]
                < POWER_CYCLE_WINDOW,
        !power_cycle_rate_limited(v.last_power_cycle_at, now),
        spec_after_failure(v, now).0.last_power_cycle_at == Some(now),
{
    let w = v.failure_timestamps.push(now);
    let p = recent(now as int, POWER_CYCLE_WINDOW as int);
    assert forall|i: int| 0 <= i < w.filter(p).len() implies now - #[trigger] w.filter(p)[i]
        < POWER_CYCLE_WINDOW by {
        w.lemma_filter_pred(p, i);
    }
}

/// The power-cycle rung comes first: a failure that brings the streak to at
/// least five, with at least five failures (this one included) less than 10
/// minutes back and no power-cycle in the 15 minutes before it, power-cycles
/// (whatever the reboot rung would allow), records the power-cycle at `now`
/// and records no reboot.
pub proof fn lemma_power_cycle_when_due(v: LadderView, now: i128)
    requires
        v.consecutive_failures + 1 >= 5,
        v.failure_timestamps.push(now).filter(|t: i128| now - t < 600_000_000_000int).len() >= 5,
        match v.last_power_cycle_at {
            Some(t) => now - t >= 900_000_000_000int,
            None => true,
        },
    ensures
        spec_after_failure(v, now).1 == LadderAction::PowerCycle,
        spec_after_failure(v, now).0.last_power_cycle_at == Some(now),
        spec_after_failure(v, now).0.consecutive_failures == v.consecutive_failures + 1,
        forall|i: int|
            0 <= i < spec_after_failure(v, now).0.reboot_timestamps.len() ==> v.reboot_timestamps.contains(
                #[trigger] spec_after_failure(v, now).0.reboot_timestamps[i],
            ),
{
    let w = v.failure_timestamps.push(now);
    let p = recent(now as int, POWER_CYCLE_WINDOW as int);
    assert(w.filter(p) == w.filter(|t: i128| now - t < 600_000_000_000int)) by {
        assert(p =~= (|t: i128| now - t < 600_000_000_000int));
    }
    let p24 = recent(now as int, REBOOT_24H_WINDOW as int);
    let post = spec_after_failure(v, now).0.reboot_timestamps;
    assert forall|i: int| 0 <= i < post.len() implies v.reboot_timestamps.contains(
        #[trigger] post[i],
    ) by {
        assert(v.reboot_timestamps.filter(p24).contains(post[i]));
        v.reboot_timestamps.lemma_filter_contains_rev(p24, post[i]);
    }
}

/// The reboot rung: when the power-cycle rung is not available (it is not
/// due, or a power-cycle lies less than 15 minutes back), a failure that
/// brings the streak to at least fifteen after an earlier power-cycle, with
/// no reboot less than 30 minutes back and fewer than three less than 24
/// hours back, reboots the host, records the reboot at `now` and keeps the
/// last power-cycle.
pub proof fn lemma_reboot_when_allowed(v: LadderView, now: i128)
    requires
        !(v.consecutive_failures + 1 >= 5 && v.failure_timestamps.push(now).filter(
            |t: i128| now - t < 600_000_000_000int,
        ).len() >= 5 && match v.last_power_cycle_at {
            Some(t) => now - t >= 900_000_000_000int,
            None => true,
        }),
        v.last_power_cycle_at is Some,
        v.consecutive_failures + 1 >= 15,
        forall|i: int|
            0 <= i < v.reboot_timestamps.len() ==> now - #[trigger] v.reboot_timestamps[i]
                >= 1_800_000_000_000int,
        v.reboot_timestamps.filter(|t: i128| now - t < 86_400_000_000_000int).len() < 3,
    ensures
        spec_after_failure(v, now).1 == LadderAction::Reboot,
        spec_after_failure(v, now).0.last_power_cycle_at == v.last_power_cycle_at,
        spec_after_failure(v, now).0.reboot_timestamps.last() == now,
        spec_after_failure(v, now).0.consecutive_failures == v.consecutive_failures + 1,
{
    let w = v.failure_timestamps.push(now);
    let p = recent(now as int, POWER_CYCLE_WINDOW as int);
    assert(p =~= (|t: i128| now - t < 600_000_000_000int));
    let p24 = recent(now as int, REBOOT_24H_WINDOW as int);
    assert(p24 =~= (|t: i128| now - t < 86_400_000_000_000int));
    lemma_recent_reboot(v.reboot_timestamps, now);
}

/// A reboot of `r` lies less than 30 minutes before `now` exactly when the
/// reboots of the last 24 hours hold one less than 30 minutes back.
proof fn lemma_recent_reboot(r: Seq<i128>, now: i128)
    ensures
        r.filter(recent(now as int, REBOOT_24H_WINDOW as int)).filter(
            recent(now as int, REBOOT_RATE_LIMIT as int),
        ).len() > 0 <==> exists|i: int|
            0 <= i < r.len() && now - #[trigger] r[i] < 1_800_000_000_000int,
{
    let p24 = recent(now as int, REBOOT_24H_WINDOW as int);
    let p30 = recent(now as int, REBOOT_RATE_LIMIT as int);
    let pruned = r.filter(p24);
    if pruned.filter(p30).len() > 0 {
        let e = pruned.filter(p30)[0];
        pruned.lemma_filter_pred(p30, 0);
        assert(pruned.filter(p30).contains(e));
        pruned.lemma_filter_contains_rev(p30, e);
        r.lemma_filter_contains_rev(p24, e);
        let i = choose|i: int| 0 <= i < r.len() && r[i] == e;
        assert(now - r[i] < 1_800_000_000_000int);
    }
    if exists|i: int| 0 <= i < r.len() && now - #[trigger] r[i] < 1_800_000_000_000int {
        let i = choose|i: int| 0 <= i < r.len() && now - #[trigger] r[i] < 1_800_000_000_000int;
        r.lemma_filter_contains(p24, i);
        let j = choose|j: int| 0 <= j < pruned.len() && pruned[j] == r[i];
        pruned.lemma_filter_contains(p30, j);
        assert(pruned.filter(p30).contains(r[i]));
    }
}

/// When neither rung fires the ladder only reports: with three reboots
/// less than 24 hours back it keeps retrying, otherwise it does not
/// escalate; the last power-cycle stays and no reboot is recorded.
pub proof fn lemma_quiet_outcomes(v: LadderView, now: i128)
    requires
        !(v.consecutive_failures + 1 >= 5 && v.failure_timestamps.push(now).filter(
            |t: i128| now - t < 600_000_000_000int,
        ).len() >= 5 && match v.last_power_cycle_at {
            Some(t) => now - t >= 900_000_000_000int,
            None => true,
        }),
        !(v.last_power_cycle_at is Some && v.consecutive_failures + 1 >= 15 && (forall|i: int|
            0 <= i < v.reboot_timestamps.len() ==> now - #[trigger] v.reboot_timestamps[i]
                >= 1_800_000_000_000int) && v.reboot_timestamps.filter(
            |t: i128| now - t < 86_400_000_000_000int,
        ).len() < 3),
    ensures
        spec_after_failure(v, now).1 == if v.reboot_timestamps.filter(
            |t: i128| now - t < 86_400_000_000_000int,
        ).len() >= 3 {
            LadderAction::KeepRetrying
        } else {
            LadderAction::NoEscalation
        },
        spec_after_failure(v, now).0.last_power_cycle_at == v.last_power_cycle_at,
        spec_after_failure(v, now).0.reboot_timestamps == v.reboot_timestamps.filter(
            |t: i128| now - t < 86_400_000_000_000int,
        ),
        spec_after_failure(v, now).0.consecutive_failures == v.consecutive_failures + 1,
{
    let p = recent(now as int, POWER_CYCLE_WINDOW as int);
    assert(p =~= (|t: i128| now - t < 600_000_000_000int));
    let p24 = recent(now as int, REBOOT_24H_WINDOW as int);
    assert(p24 =~= (|t: i128| now - t < 86_400_000_000_000int));
    lemma_recent_reboot(v.reboot_timestamps, now);
}

/// What a failure reports as held back by a rate limit: the last
/// power-cycle, exactly when the power-cycle rung is due but a power-cycle
/// lies less than 15 minutes back; and, when the failure does not
/// power-cycle, a held-back reboot exactly when the reboot rung is due
/// (a power-cycle before, fifteen failures) but a reboot lies less than 30
/// minutes back or three lie less than 24 hours back, reporting both.
pub proof fn lemma_rung_skips_report(v: LadderView, now: i128)
    ensures
        ({
            let due = v.consecutive_failures + 1 >= 5 && v.failure_timestamps.push(now).filter(
                |t: i128| now - t < 600_000_000_000int,
            ).len() >= 5;
            let limited = match v.last_power_cycle_at {
                Some(t) => now - t < 900_000_000_000int,
                None => false,
            };
            let within_30min = exists|i: int|
                0 <= i < v.reboot_timestamps.len() && now - #[trigger] v.reboot_timestamps[i]
                    < 1_800_000_000_000int;
            let within_24h = v.reboot_timestamps.filter(
                |t: i128| now - t < 86_400_000_000_000int,
            ).len();
            let skips = spec_rung_skips(v, now);
            &&& skips.power_cycle_skipped == if due && limited {
                v.last_power_cycle_at
            } else {
                None
            }
            &&& skips.reboot_skipped == if !(due && !limited) && v.last_power_cycle_at is Some
                && v.consecutive_failures + 1 >= 15 && (within_30min || within_24h >= 3) {
                Some(RebootSkip { within_30min, within_24h: within_24h as usize })
            } else {
                None
            }
        }),
{
    let p = recent(now as int, POWER_CYCLE_WINDOW as int);
    assert(p =~= (|t: i128| now - t < 600_000_000_000int));
    let p24 = recent(now as int, REBOOT_24H_WINDOW as int);
    assert(p24 =~= (|t: i128| now - t < 86_400_000_000_000int));
    lemma_recent_reboot(v.reboot_timestamps, now);
}

/// The adapter is power-cycled at most once in any 15 minutes: a failure
/// less than 15 minutes after the last power-cycle never power-cycles.
pub proof fn lemma_power_cycle_rate_limit(v: LadderView, now: i128, last: i128)
    requires
        v.last_power_cycle_at == Some(last),
        now - last < POWER_CYCLE_RATE_LIMIT,
    ensures
        spec_after_failure(v, now).1 != LadderAction::PowerCycle,
        spec_after_failure(v, now).0.last_power_cycle_at == Some(last),
{
}

/// A reboot needs a power-cycle attempted before, fifteen consecutive
/// failures, no reboot in the 30 minutes before it and fewer than three in
/// the 24 hours before it; it is then recorded at `now`.
pub proof fn lemma_reboot_conditions(v: LadderView, now: i128)
    requires
        spec_after_failure(v, now).1 == LadderAction::Reboot,
    ensures
        v.last_power_cycle_at is Some,
        spec_after_failure(v, now).0.consecutive_failures >= POWER_CYCLE_THRESHOLD
            + REBOOT_EXTRA_FAILURES,
        forall|i: int|
            0 <= i < v.reboot_timestamps.len() ==> now - #[trigger] v.reboot_timestamps[i]
                >= REBOOT_RATE_LIMIT,
        v.reboot_timestamps.filter(recent(now as int, REBOOT_24H_WINDOW as int)).len()
            < REBOOT_MAX_24H,
        spec_after_failure(v, now).0.reboot_timestamps.last() == now,
{
    let p24 = recent(now as int, REBOOT_24H_WINDOW as int);
    let p30 = recent(now as int, REBOOT_RATE_LIMIT as int);
    let pruned = v.reboot_timestamps.filter(p24);
    assert forall|i: int| 0 <= i < v.reboot_timestamps.len() implies now
        - #[trigger] v.reboot_timestamps[i] >= REBOOT_RATE_LIMIT by {
        let r = v.reboot_timestamps[i];
        if now - r < REBOOT_RATE_LIMIT {
            v.reboot_timestamps.lemma_filter_contains(p24, i);
            let j = choose|j: int| 0 <= j < pruned.len() && pruned[j] == r;
            pruned.lemma_filter_contains(p30, j);
        }
    }
}

/// No more than three reboots are ever recorded within 24 hours: after any
/// failure every recorded reboot lies less than 24 hours before it, and a
/// failure that reboots leaves at most three.
pub proof fn lemma_reboot_cap(v: LadderView, now: i128)
    ensures
        forall|i: int|
            0 <= i < spec_after_failure(v, now).0.reboot_timestamps.len() ==> now
                - #[trigger] spec_after_failure(v, now).0.reboot_timestamps[i]
                < REBOOT_24H_WINDOW,
        spec_after_failure(v, now).1 == LadderAction::Reboot ==> spec_after_failure(
            v,
            now,
        ).0.reboot_timestamps.len() <= REBOOT_MAX_24H,
        v.reboot_timestamps.filter(recent(now as int, REBOOT_24H_WINDOW as int)).len()
            >= REBOOT_MAX_24H ==> spec_after_failure(v, now).1 != LadderAction::Reboot,
{
    let p24 = recent(now as int, REBOOT_24H_WINDOW as int);
    let pruned = v.reboot_timestamps.filter(p24);
    let post = spec_after_failure(v, now).0.reboot_timestamps;
    assert forall|i: int| 0 <= i < post.len() implies now - #[trigger] post[i]
        < REBOOT_24H_WINDOW by {
        if i < pruned.len() {
            v.reboot_timestamps.lemma_filter_pred(p24, i);
        }
    }
}

/// Once three reboots lie within 24 hours the ladder stops escalating to
/// reboots: the failure either power-cycles (if that rung is due) or keeps
/// retrying.
pub proof fn lemma_cap_keeps_retrying(v: LadderView, now: i128)
    requires
        v.reboot_timestamps.filter(recent(now as int, REBOOT_24H_WINDOW as int)).len()
            >= REBOOT_MAX_24H,
    ensures
        spec_after_failure(v, now).1 == LadderAction::PowerCycle || spec_after_failure(v, now).1
            == LadderAction::KeepRetrying,
{
}

/// A successful connection resets the streak and the window: the next
/// failure counts as the first and neither power-cycles nor reboots.
pub proof fn lemma_success_resets_streak(v: LadderView, now: i128)
    ensures
        spec_after_failure(spec_after_success(v), now).0.consecutive_failures == 1,
        spec_after_failure(spec_after_success(v), now).0.failure_timestamps == seq![now],
        spec_after_failure(spec_after_success(v), now).1 == LadderAction::NoEscalation
            || spec_after_failure(spec_after_success(v), now).1 == LadderAction::KeepRetrying,
{
    let p = recent(now as int, POWER_CYCLE_WINDOW as int);
    Seq::<i128>::empty().lemma_filter_push(now, p);
    reveal(Seq::filter);
    assert(Seq::<i128>::empty().filter(p) =~= Seq::<i128>::empty());
    assert(Seq::<i128>::empty().push(now) =~= seq![now]);
}

/// A successful connection forgets the failure streak but not the
/// escalation history: the streak and window are emptied while the last
/// power-cycle and the recorded reboots are kept.
pub proof fn lemma_success_keeps_history(v: LadderView)
    ensures
        spec_after_success(v).consecutive_failures == 0,
        spec_after_success(v).failure_timestamps.len() == 0,
        spec_after_success(v).last_power_cycle_at == v.last_power_cycle_at,
        spec_after_success(v).reboot_timestamps == v.reboot_timestamps,
{
}

/// One thing that happens to the ladder: a failed connection at an instant,
/// or a successful one.
pub enum LadderEvent {
    Failure { now: i128 },
    Success,
}

/// The instant of a failure (0 for a success, which has none).
pub open spec fn event_time(e: LadderEvent) -> i128 {
    match e {
        LadderEvent::Failure { now } => now,
        LadderEvent::Success => 0,
    }
}

/// The ladder after one event.
pub open spec fn ladder_step(v: LadderView, e: LadderEvent) -> LadderView {
    match e {
        LadderEvent::Failure { now } => spec_after_failure(v, now).0,
        LadderEvent::Success => spec_after_success(v),
    }
}

/// The ladder after a sequence of events, in order.
pub open spec fn ladder_after(v: LadderView, events: Seq<LadderEvent>) -> LadderView
    decreases events.len(),
{
    if events.len() == 0 {
        v
    } else {
        ladder_step(ladder_after(v, events.drop_last()), events.last())
    }
}

/// The action the `k`-th event asks for: that of a failure, none for a success.
pub open spec fn action_at(v: LadderView, events: Seq<LadderEvent>, k: int) -> Option<
    LadderAction,
> {
    match events[k] {
        LadderEvent::Failure { now } => Some(
            spec_after_failure(ladder_after(v, events.take(k)), now).1,
        ),
        LadderEvent::Success => None,
    }
}

/// Whether the failures happen in time order.
pub open spec fn failures_in_time_order(events: Seq<LadderEvent>) -> bool {
    forall|i: int, j: int|
        0 <= i < j < events.len() && #[trigger] events[i] is Failure && #[trigger] events[j] is Failure
            ==> event_time(events[i]) <= event_time(events[j])
}

spec fn power_cycle_remembered(v: LadderView, events: Seq<LadderEvent>, k: int, i: int) -> bool {
    action_at(v, events, i) == Some(LadderAction::PowerCycle) ==> match ladder_after(
        v,
        events.take(k),
    ).last_power_cycle_at {
        Some(t) => t >= event_time(events[i]),
        None => false,
    }
}

spec fn reboot_remembered(v: LadderView, events: Seq<LadderEvent>, k: int, i: int) -> bool {
    action_at(v, events, i) == Some(LadderAction::Reboot) ==> (ladder_after(
        v,
        events.take(k),
    ).reboot_timestamps.contains(event_time(events[i])) || exists|l: int|
        i < l < k && #[trigger] events[l] is Failure && event_time(events[l]) - event_time(
            events[i],
        ) >= REBOOT_24H_WINDOW)
}

proof fn lemma_ladder_after_take_step(v: LadderView, events: Seq<LadderEvent>, k: int)
    requires
        0 <= k < events.len(),
    ensures
        ladder_after(v, events.take(k + 1)) == ladder_step(
            ladder_after(v, events.take(k)),
            events[k],
        ),
{
    assert(events.take(k + 1).drop_last() =~= events.take(k));
}

/// What the ladder remembers of the actions of a run: the last power-cycle
/// is no earlier than any power-cycle of the run, and every reboot of the
/// run is still recorded unless a later failure came 24 hours or more after it.
proof fn lemma_run_memory(v: LadderView, events: Seq<LadderEvent>, k: int)
    requires
        0 <= k <= events.len(),
        failures_in_time_order(events),
    ensures
        forall|i: int|
            0 <= i < k ==> power_cycle_remembered(v, events, k, i) && reboot_remembered(
                v,
                events,
                k,
                i,
            ),
    decreases k,
{
    if k > 0 {
        lemma_run_memory(v, events, k - 1);
        lemma_ladder_after_take_step(v, events, k - 1);
        let s = ladder_after(v, events.take(k - 1));
        let e = events[k - 1];
        assert forall|i: int| 0 <= i < k implies power_cycle_remembered(v, events, k, i)
            && reboot_remembered(v, events, k, i) by {
            if i < k - 1 {
                assert(power_cycle_remembered(v, events, k - 1, i));
                assert(reboot_remembered(v, events, k - 1, i));
                if action_at(v, events, i) is Some {
                    assert(events[i] is Failure);
                }
                match e {
                    LadderEvent::Success => {
                        if action_at(v, events, i) == Some(LadderAction::Reboot) {
                            if !s.reboot_timestamps.contains(event_time(events[i])) {
                                let l = choose|l: int|
                                    i < l < k - 1 && #[trigger] events[l] is Failure
                                        && event_time(events[l]) - event_time(events[i])
                                        >= REBOOT_24H_WINDOW;
                                assert(events[l] is Failure);
                            }
                        }
                    },
                    LadderEvent::Failure { now } => {
                        assert(events[k - 1] is Failure);
                        let p24 = recent(now as int, REBOOT_24H_WINDOW as int);
                        let pruned = s.reboot_timestamps.filter(p24);
                        if action_at(v, events, i) == Some(LadderAction::Reboot) {
                            let ti = event_time(events[i]);
                            assert(ti <= now);
                            if s.reboot_timestamps.contains(ti) {
                                if now - ti < REBOOT_24H_WINDOW {
                                    let ix = choose|ix: int|
                                        0 <= ix < s.reboot_timestamps.len()
                                            && s.reboot_timestamps[ix] == ti;
                                    s.reboot_timestamps.lemma_filter_contains(p24, ix);
                                    assert(pruned.contains(ti));
                                    if spec_after_failure(s, now).1 == LadderAction::Reboot {
                                        assert(pruned.push(now).contains(ti)) by {
                                            let jx = choose|jx: int|
                                                0 <= jx < pruned.len() && pruned[jx] == ti;
                                            assert(pruned.push(now)[jx] == ti);
                                        }
                                    }
                                } else {
                                    assert(events[k - 1] is Failure);
                                }
                            } else {
                                let l = choose|l: int|
                                    i < l < k - 1 && #[trigger] events[l] is Failure
                                        && event_time(events[l]) - event_time(events[i])
                                        >= REBOOT_24H_WINDOW;
                                assert(events[l] is Failure);
                            }
                        }
                    },
                }
            } else {
                if action_at(v, events, i) == Some(LadderAction::Reboot) {
                    let now = event_time(e);
                    let pruned = s.reboot_timestamps.filter(
                        recent(now as int, REBOOT_24H_WINDOW as int),
                    );
                    assert(pruned.push(now)[pruned.len() as int] == now);
                }
            }
        }
    }
}

/// The ladder's rate limits hold over any run of failures and successes
/// whose failures come in time order, whatever state it starts from: two
/// power-cycles of the run are at least 15 minutes apart, two reboots at
/// least 30 minutes apart, and a power-cycle or reboot is only asked for
/// once the streak has reached five failures.
pub proof fn lemma_rate_limits_over_runs(v: LadderView, events: Seq<LadderEvent>, i: int, j: int)
    requires
        failures_in_time_order(events),
        0 <= i < j < events.len(),
    ensures
        action_at(v, events, i) == Some(LadderAction::PowerCycle) && action_at(v, events, j)
            == Some(LadderAction::PowerCycle) ==> event_time(events[j]) - event_time(events[i])
            >= POWER_CYCLE_RATE_LIMIT,
        action_at(v, events, i) == Some(LadderAction::Reboot) && action_at(v, events, j)
            == Some(LadderAction::Reboot) ==> event_time(events[j]) - event_time(events[i])
            >= REBOOT_RATE_LIMIT,
        (action_at(v, events, j) == Some(LadderAction::PowerCycle) || action_at(v, events, j)
            == Some(LadderAction::Reboot)) ==> ladder_after(v, events.take(j + 1)).consecutive_failures
            >= POWER_CYCLE_THRESHOLD,
{
    lemma_run_memory(v, events, j);
    lemma_ladder_after_take_step(v, events, j);
    assert(power_cycle_remembered(v, events, j, i));
    assert(reboot_remembered(v, events, j, i));
    let s = ladder_after(v, events.take(j));
    if action_at(v, events, i) is Some && action_at(v, events, j) is Some {
        assert(events[i] is Failure && events[j] is Failure);
        let now = event_time(events[j]);
        let ti = event_time(events[i]);
        if action_at(v, events, i) == Some(LadderAction::Reboot) && action_at(v, events, j)
            == Some(LadderAction::Reboot) {
            let p24 = recent(now as int, REBOOT_24H_WINDOW as int);
            let p30 = recent(now as int, REBOOT_RATE_LIMIT as int);
            let pruned = s.reboot_timestamps.filter(p24);
            if s.reboot_timestamps.contains(ti) {
                if now - ti < REBOOT_RATE_LIMIT {
                    let ix = choose|ix: int|
                        0 <= ix < s.reboot_timestamps.len() && s.reboot_timestamps[ix] == ti;
                    s.reboot_timestamps.lemma_filter_contains(p24, ix);
                    let jx = choose|jx: int| 0 <= jx < pruned.len() && pruned[jx] == ti;
                    pruned.lemma_filter_contains(p30, jx);
                }
            } else {
                let l = choose|l: int|
                    i < l < j && #[trigger] events[l] is Failure && event_time(events[l])
                        - event_time(events[i]) >= REBOOT_24H_WINDOW;
                assert(events[l] is Failure);
            }
        }
    }
}

/// At most three reboots in any 24 hours over a run: of any four reboots of
/// a run whose failures come in time order, the last comes at least 24
/// hours after the first.
pub proof fn lemma_reboot_cap_over_runs(
    v: LadderView,
    events: Seq<LadderEvent>,
    i1: int,
    i2: int,
    i3: int,
    i4: int,
)
    requires
        failures_in_time_order(events),
        0 <= i1 < i2 < i3 < i4 < events.len(),
        action_at(v, events, i1) == Some(LadderAction::Reboot),
        action_at(v, events, i2) == Some(LadderAction::Reboot),
        action_at(v, events, i3) == Some(LadderAction::Reboot),
        action_at(v, events, i4) == Some(LadderAction::Reboot),
    ensures
        event_time(events[i4]) - event_time(events[i1]) >= REBOOT_24H_WINDOW,
{
    lemma_rate_limits_over_runs(v, events, i1, i2);
    lemma_rate_limits_over_runs(v, events, i2, i3);
    lemma_run_memory(v, events, i4);
    assert(events[i1] is Failure && events[i2] is Failure && events[i3] is Failure
        && events[i4] is Failure);
    let now = event_time(events[i4]);
    let t1 = event_time(events[i1]);
    let t2 = event_time(events[i2]);
    let t3 = event_time(events[i3]);
    if now - t1 < REBOOT_24H_WINDOW {
        let s = ladder_after(v, events.take(i4));
        let p24 = recent(now as int, REBOOT_24H_WINDOW as int);
        let pruned = s.reboot_timestamps.filter(p24);
        assert(t1 <= t2 <= t3 <= now);
        assert forall|m: int| m == i1 || m == i2 || m == i3 implies pruned.contains(
            event_time(#[trigger] events[m]),
        ) by {
            assert(reboot_remembered(v, events, i4, m));
            let tm = event_time(events[m]);
            if s.reboot_timestamps.contains(tm) {
                let ix = choose|ix: int|
                    0 <= ix < s.reboot_timestamps.len() && s.reboot_timestamps[ix] == tm;
                s.reboot_timestamps.lemma_filter_contains(p24, ix);
            } else {
                let l = choose|l: int|
                    m < l < i4 && #[trigger] events[l] is Failure && event_time(events[l])
                        - event_time(events[m]) >= REBOOT_24H_WINDOW;
                assert(events[l] is Failure);
            }
        }
        assert(pruned.contains(t1) && pruned.contains(t2) && pruned.contains(t3));
        let a = choose|a: int| 0 <= a < pruned.len() && pruned[a] == t1;
        let b = choose|b: int| 0 <= b < pruned.len() && pruned[b] == t2;
        let c = choose|c: int| 0 <= c < pruned.len() && pruned[c] == t3;
        assert(a != b && b != c && a != c);
        assert(pruned.len() >= 3);
        lemma_ladder_after_take_step(v, events, i4);
    }
}

} // verus!
