//! Runtime metrics: status gauges and counters shared by the health
//! endpoint and the monitor.
//!
//! The counters wrap around on overflow, as atomic counters do.

use crate::time::{elapsed_secs, instant_now, Time};
use std::time::Instant;
use vstd::prelude::*;
use vstd::arithmetic::div_mod::{
    lemma_add_mod_noop_right, lemma_mod_add_multiples_vanish, lemma_mod_self_0, lemma_small_mod, lemma_sub_mod_noop,
};
use vstd::wrapping::{u64_specs, usize_specs};

verus! {

/// How old a successful heartbeat may be before the bot is considered
/// dead (three times the 60 s heartbeat interval).
pub const STALE_AFTER_SECS: i64 = 180;

/// Per-command counters.
#[derive(Debug, Clone, Copy, PartialEq, Eq, Structural)]
pub struct CommandHealth {
    pub total: u64,
    pub errors: u64,
}

/// A point-in-time status snapshot, served by `/healthz` and `/metrics`.
#[derive(Debug, Clone)]
pub struct Health {
    pub service: &'static str,
    pub version: &'static str,
    pub uptime_secs: u64,
    pub telegram: &'static str,
    /// Whether the bot considers itself healthy: Telegram reachable and the
    /// heartbeat fresh.
    pub healthy: bool,
    pub last_heartbeat_ago_secs: Option<i64>,
    pub last_command_ago_secs: Option<i64>,
    pub commands_total: u64,
    pub dispatch_errors_total: u64,
    pub jobs_active: usize,
    pub jobs_failed_total: u64,
    pub panics_total: u64,
    /// Total prompt (input) tokens across LLM requests.
    pub llm_prompt_tokens_total: u64,
    /// Total completion (output) tokens across LLM requests.
    pub llm_completion_tokens_total: u64,
    /// Number of LLM requests made.
    pub llm_requests_total: u64,
    /// Cumulative LLM cost in micro-USD (millionths of a dollar).
    pub llm_cost_micro_usd_total: u64,
    /// Per-command counters, in the order the commands were first seen.
    pub commands: Vec<(&'static str, CommandHealth)>,
}

/// Accumulated LLM usage.
pub struct UsageTotals {
    pub prompt_tokens: u64,
    pub completion_tokens: u64,
    pub requests: u64,
    pub cost_micro_usd: u64,
}

/// The handle for reporting LLM usage (token counts and a caller-computed
/// cost in micro-USD) into the metrics.
#[derive(Debug)]
pub struct UsageReporter {
    prompt_tokens: u64,
    completion_tokens: u64,
    requests: u64,
    cost_micro_usd: u64,
}

impl View for UsageReporter {
    type V = UsageTotals;

    closed spec fn view(&self) -> UsageTotals {
        UsageTotals {
            prompt_tokens: self.prompt_tokens,
            completion_tokens: self.completion_tokens,
            requests: self.requests,
            cost_micro_usd: self.cost_micro_usd,
        }
    }
}

/// The totals after one more LLM request is reported.
pub open spec fn usage_after_report(u: UsageTotals, prompt: u64, completion: u64, cost: u64) -> UsageTotals {
    UsageTotals {
        prompt_tokens: u64_specs::wrapping_add(u.prompt_tokens, prompt),
        completion_tokens: u64_specs::wrapping_add(u.completion_tokens, completion),
        requests: u64_specs::wrapping_add(u.requests, 1),
        cost_micro_usd: u64_specs::wrapping_add(u.cost_micro_usd, cost),
    }
}

impl UsageReporter {
    /// Record one LLM request's token usage and cost.
    pub fn report(&mut self, prompt_tokens: u64, completion_tokens: u64, cost_micro_usd: u64)
        ensures
            final(self)@ == usage_after_report(old(self)@, prompt_tokens, completion_tokens, cost_micro_usd),
    {
        self.prompt_tokens = self.prompt_tokens.wrapping_add(prompt_tokens);
        self.completion_tokens = self.completion_tokens.wrapping_add(completion_tokens);
        self.requests = self.requests.wrapping_add(1);
        self.cost_micro_usd = self.cost_micro_usd.wrapping_add(cost_micro_usd);
    }
}

/// The state the metrics hold.
pub struct MetricsView {
    pub service: &'static str,
    pub version: &'static str,
    pub telegram_ok: bool,
    pub last_heartbeat: i64,
    pub last_command: i64,
    pub commands_total: u64,
    pub dispatch_errors: u64,
    pub jobs_active: usize,
    pub jobs_failed: u64,
    pub panics: u64,
    pub usage: UsageTotals,
    pub commands: Seq<(&'static str, CommandHealth)>,
}

/// Shared runtime metrics for one bot process.
pub struct Metrics {
    service: &'static str,
    version: &'static str,
    started: Instant,
    telegram_ok: bool,
    last_heartbeat: i64,
    last_command: i64,
    commands_total: u64,
    dispatch_errors: u64,
    jobs_active: usize,
    jobs_failed: u64,
    panics: u64,
    usage: UsageReporter,
    commands: Vec<(&'static str, CommandHealth)>,
}

impl View for Metrics {
    type V = MetricsView;

    closed spec fn view(&self) -> MetricsView {
        MetricsView {
            service: self.service,
            version: self.version,
            telegram_ok: self.telegram_ok,
            last_heartbeat: self.last_heartbeat,
            last_command: self.last_command,
            commands_total: self.commands_total,
            dispatch_errors: self.dispatch_errors,
            jobs_active: self.jobs_active,
            jobs_failed: self.jobs_failed,
            panics: self.panics,
            usage: self.usage@,
            commands: self.commands@,
        }
    }
}

// ---------------------------------------------------------------------------
// The model of each operation
// ---------------------------------------------------------------------------

/// `i` is the first entry of `cmds` named `name`.
pub open spec fn is_first_cmd(cmds: Seq<(&'static str, CommandHealth)>, name: Seq<char>, i: int) -> bool {
    &&& 0 <= i < cmds.len()
    &&& cmds[i].0@ == name
    &&& forall|j: int| 0 <= j < i ==> cmds[j].0@ != name
}

/// The entry of `cmds` named `name`, if any.
pub open spec fn find_cmd(cmds: Seq<(&'static str, CommandHealth)>, name: Seq<char>) -> Option<int> {
    if exists|i: int| is_first_cmd(cmds, name, i) {
        Some(choose|i: int| is_first_cmd(cmds, name, i))
    } else {
        None
    }
}

/// The counters of command `name` (zero when it was never seen).
pub open spec fn command_counts(cmds: Seq<(&'static str, CommandHealth)>, name: Seq<char>) -> CommandHealth {
    match find_cmd(cmds, name) {
        Some(i) => cmds[i].1,
        None => CommandHealth { total: 0, errors: 0 },
    }
}

/// Counters with one more execution (or one more error).
pub open spec fn bumped(h: CommandHealth, error: bool) -> CommandHealth {
    if error {
        CommandHealth { total: h.total, errors: u64_specs::wrapping_add(h.errors, 1) }
    } else {
        CommandHealth { total: u64_specs::wrapping_add(h.total, 1), errors: h.errors }
    }
}

/// The per-command table after one more execution (or error) of `name`; a
/// command seen for the first time is appended.
pub open spec fn bump_command(
    cmds: Seq<(&'static str, CommandHealth)>,
    name: &'static str,
    error: bool,
) -> Seq<(&'static str, CommandHealth)> {
    match find_cmd(cmds, name@) {
        Some(i) => cmds.update(i, (cmds[i].0, bumped(cmds[i].1, error))),
        None => cmds.push((name, bumped(CommandHealth { total: 0, errors: 0 }, error))),
    }
}

/// Whether the last heartbeat is fresh at time `now`.
pub open spec fn alive_spec(m: MetricsView, now: i64) -> bool {
    m.last_heartbeat + STALE_AFTER_SECS >= now
}

/// Seconds between `t` and `now`, never negative, capped at `i64::MAX`.
pub open spec fn ago_spec(now: i64, t: i64) -> i64 {
    if now - t < 0 {
        0
    } else if now - t > i64::MAX {
        i64::MAX
    } else {
        (now - t) as i64
    }
}

/// The health snapshot of `m` at time `now`, `uptime` seconds after start.
pub open spec fn health_spec(m: MetricsView, now: i64, uptime: u64, h: Health) -> bool {
    &&& h.service == m.service
    &&& h.version == m.version
    &&& h.uptime_secs == uptime
    &&& h.telegram@ == (if m.telegram_ok { "ok"@ } else { "unreachable"@ })
    &&& h.healthy == (m.telegram_ok && alive_spec(m, now))
    &&& h.last_heartbeat_ago_secs == Some(ago_spec(now, m.last_heartbeat))
    &&& h.last_command_ago_secs == Some(ago_spec(now, m.last_command))
    &&& h.commands_total == m.commands_total
    &&& h.dispatch_errors_total == m.dispatch_errors
    &&& h.jobs_active == m.jobs_active
    &&& h.jobs_failed_total == m.jobs_failed
    &&& h.panics_total == m.panics
    &&& h.llm_prompt_tokens_total == m.usage.prompt_tokens
    &&& h.llm_completion_tokens_total == m.usage.completion_tokens
    &&& h.llm_requests_total == m.usage.requests
    &&& h.llm_cost_micro_usd_total == m.usage.cost_micro_usd
    &&& h.commands@ == m.commands
}

/// The same metrics with only the named parts changed.
pub open spec fn same_except_flags(a: MetricsView, b: MetricsView) -> bool {
    &&& a.service == b.service
    &&& a.version == b.version
    &&& a.commands_total == b.commands_total
    &&& a.dispatch_errors == b.dispatch_errors
    &&& a.jobs_active == b.jobs_active
    &&& a.jobs_failed == b.jobs_failed
    &&& a.panics == b.panics
    &&& a.usage == b.usage
    &&& a.commands == b.commands
}

/// The first entry of `cmds` named `name`.
fn find_command(cmds: &Vec<(&'static str, CommandHealth)>, name: &str) -> (r: Option<usize>)
    ensures
        match r {
            Some(i) => find_cmd(cmds@, name@) == Some(i as int),
            None => find_cmd(cmds@, name@) is None,
        },
{
    let mut i: usize = 0;
    while i < cmds.len()
        invariant
            i <= cmds.len(),
            forall|j: int| 0 <= j < i ==> cmds@[j].0@ != name@,
        decreases cmds.len() - i,
    {
        let entry_name: &str = cmds[i].0;
        if crate::text::str_equal(entry_name, name) {
            proof {
                assert(is_first_cmd(cmds@, name@, i as int));
                let k = choose|k: int| is_first_cmd(cmds@, name@, k);
                assert(k == i) by {
                    if k < i {
                        assert(cmds@[k].0@ != name@);
                    }
                    if k > i {
                        assert(cmds@[i as int].0@ == name@);
                    }
                }
            }
            return Some(i);
        }
        i = i + 1;
    }
    assert forall|k: int| !is_first_cmd(cmds@, name@, k) by {
        if 0 <= k < cmds@.len() {
            assert(cmds@[k].0@ != name@);
        }
    }
    None
}

impl Health {
    /// The counters of command `name`, if it was seen.
    pub fn command(&self, name: &str) -> (r: Option<CommandHealth>)
        ensures
            match find_cmd(self.commands@, name@) {
                Some(i) => r == Some(self.commands@[i].1),
                None => r is None,
            },
    {
        match find_command(&self.commands, name) {
            Some(i) => Some(self.commands[i].1),
            None => None,
        }
    }
}

impl Metrics {
    /// Fresh metrics for `service` at `version`, started now: Telegram
    /// assumed reachable, both timestamps set to the current time, every
    /// counter zero.
    pub fn new(service: &'static str, version: &'static str) -> (m: Metrics)
        ensures
            m@.service == service,
            m@.version == version,
            m@.telegram_ok,
            m@.last_heartbeat == m@.last_command,
            m@.commands_total == 0,
            m@.dispatch_errors == 0,
            m@.jobs_active == 0,
            m@.jobs_failed == 0,
            m@.panics == 0,
            m@.usage == (UsageTotals { prompt_tokens: 0, completion_tokens: 0, requests: 0, cost_micro_usd: 0 }),
            m@.commands == Seq::<(&'static str, CommandHealth)>::empty(),
    {
        let now = Time::now_secs();
        let m = Metrics {
            service,
            version,
            started: instant_now(),
            telegram_ok: true,
            last_heartbeat: now,
            last_command: now,
            commands_total: 0,
            dispatch_errors: 0,
            jobs_active: 0,
            jobs_failed: 0,
            panics: 0,
            usage: UsageReporter { prompt_tokens: 0, completion_tokens: 0, requests: 0, cost_micro_usd: 0 },
            commands: Vec::new(),
        };
        assert(m@.commands =~= Seq::<(&'static str, CommandHealth)>::empty());
        m
    }

    /// The current Unix time in seconds.
    pub fn now_unix() -> i64 {
        Time::now_secs()
    }

    /// The handle for reporting LLM usage into these metrics.
    pub fn usage_reporter(&mut self) -> (r: &mut UsageReporter)
        ensures
            r@ == old(self)@.usage,
            final(self)@ == (MetricsView { usage: final(r)@, ..old(self)@ }),
    {
        &mut self.usage
    }

    /// A Telegram heartbeat succeeded at time `now`.
    pub fn heartbeat_ok_at(&mut self, now: i64)
        ensures
            final(self)@ == (MetricsView { telegram_ok: true, last_heartbeat: now, ..old(self)@ }),
            final(self)@ == apply_event(old(self)@, MetricsEvent::HeartbeatOk(now)),
    {
        self.telegram_ok = true;
        self.last_heartbeat = now;
    }

    /// A Telegram heartbeat succeeded (now).
    pub fn heartbeat_ok(&mut self)
        ensures
            final(self)@.telegram_ok,
            final(self)@.last_command == old(self)@.last_command,
            same_except_flags(final(self)@, old(self)@),
            exists|t: i64| final(self)@ == apply_event(old(self)@, MetricsEvent::HeartbeatOk(t)),
    {
        let now = Time::now_secs();
        self.heartbeat_ok_at(now);
    }

    /// A Telegram heartbeat failed (transient failures self-heal; the
    /// staleness check in [`Metrics::alive`] decides liveness).
    pub fn heartbeat_failed(&mut self)
        ensures
            final(self)@ == (MetricsView { telegram_ok: false, ..old(self)@ }),
            final(self)@ == apply_event(old(self)@, MetricsEvent::HeartbeatFailed),
    {
        self.telegram_ok = false;
    }

    /// A command was dispatched at time `now`.
    pub fn note_command_at(&mut self, now: i64)
        ensures
            final(self)@ == (MetricsView {
                last_command: now,
                commands_total: u64_specs::wrapping_add(old(self)@.commands_total, 1),
                ..old(self)@
            }),
            final(self)@ == apply_event(old(self)@, MetricsEvent::Command(now)),
    {
        self.last_command = now;
        self.commands_total = self.commands_total.wrapping_add(1);
    }

    /// A command was dispatched (now).
    pub fn note_command(&mut self)
        ensures
            final(self)@.commands_total == u64_specs::wrapping_add(old(self)@.commands_total, 1),
            final(self)@.telegram_ok == old(self)@.telegram_ok,
            final(self)@.last_heartbeat == old(self)@.last_heartbeat,
            final(self)@.service == old(self)@.service,
            final(self)@.version == old(self)@.version,
            final(self)@.dispatch_errors == old(self)@.dispatch_errors,
            final(self)@.jobs_active == old(self)@.jobs_active,
            final(self)@.jobs_failed == old(self)@.jobs_failed,
            final(self)@.panics == old(self)@.panics,
            final(self)@.usage == old(self)@.usage,
            final(self)@.commands == old(self)@.commands,
            exists|t: i64| final(self)@ == apply_event(old(self)@, MetricsEvent::Command(t)),
    {
        let now = Time::now_secs();
        self.note_command_at(now);
    }

    fn bump(&mut self, name: &'static str, error: bool)
        ensures
            final(self)@ == (MetricsView { commands: bump_command(old(self)@.commands, name, error), ..old(self)@ }),
    {
        match find_command(&self.commands, name) {
            Some(i) => {
                let (n, h) = self.commands[i];
                let nh = if error {
                    CommandHealth { total: h.total, errors: h.errors.wrapping_add(1) }
                } else {
                    CommandHealth { total: h.total.wrapping_add(1), errors: h.errors }
                };
                self.commands.set(i, (n, nh));
            },
            None => {
                let zero = CommandHealth { total: 0, errors: 0 };
                let nh = if error {
                    CommandHealth { total: 0, errors: 1 }
                } else {
                    CommandHealth { total: 1, errors: 0 }
                };
                assert(nh == bumped(zero, error));
                self.commands.push((name, nh));
            },
        }
    }

    /// Record one execution of the named command.
    pub fn note_command_named(&mut self, name: &'static str)
        ensures
            final(self)@ == (MetricsView { commands: bump_command(old(self)@.commands, name, false), ..old(self)@ }),
            final(self)@ == apply_event(old(self)@, MetricsEvent::CommandNamed(name)),
    {
        self.bump(name, false);
    }

    /// Record one failed execution of the named command.
    pub fn note_command_error(&mut self, name: &'static str)
        ensures
            final(self)@ == (MetricsView { commands: bump_command(old(self)@.commands, name, true), ..old(self)@ }),
            final(self)@ == apply_event(old(self)@, MetricsEvent::CommandError(name)),
    {
        self.bump(name, true);
    }

    /// A command failed to be delivered (the dispatcher's error handler
    /// observed a request error).
    pub fn note_dispatch_error(&mut self)
        ensures
            final(self)@ == (MetricsView {
                dispatch_errors: u64_specs::wrapping_add(old(self)@.dispatch_errors, 1),
                ..old(self)@
            }),
            final(self)@ == apply_event(old(self)@, MetricsEvent::DispatchError),
    {
        self.dispatch_errors = self.dispatch_errors.wrapping_add(1);
    }

    /// A background job started.
    pub fn job_started(&mut self)
        ensures
            final(self)@ == (MetricsView {
                jobs_active: usize_specs::wrapping_add(old(self)@.jobs_active, 1),
                ..old(self)@
            }),
            final(self)@ == apply_event(old(self)@, MetricsEvent::JobStarted),
    {
        self.jobs_active = self.jobs_active.wrapping_add(1);
    }

    /// A background job finished; `failed` marks error/timeout/panic.
    pub fn job_finished(&mut self, failed: bool)
        ensures
            final(self)@ == (MetricsView {
                jobs_active: usize_specs::wrapping_sub(old(self)@.jobs_active, 1),
                jobs_failed: if failed {
                    u64_specs::wrapping_add(old(self)@.jobs_failed, 1)
                } else {
                    old(self)@.jobs_failed
                },
                ..old(self)@
            }),
            final(self)@ == apply_event(old(self)@, MetricsEvent::JobFinished(failed)),
    {
        self.jobs_active = self.jobs_active.wrapping_sub(1);
        if failed {
            self.jobs_failed = self.jobs_failed.wrapping_add(1);
        }
    }

    /// A process panic was observed.
    pub fn note_panic(&mut self)
        ensures
            final(self)@ == (MetricsView { panics: u64_specs::wrapping_add(old(self)@.panics, 1), ..old(self)@ }),
            final(self)@ == apply_event(old(self)@, MetricsEvent::Panic),
    {
        self.panics = self.panics.wrapping_add(1);
    }

    /// Liveness at time `now`: the last heartbeat is at most
    /// [`STALE_AFTER_SECS`] old.
    pub fn alive_at(&self, now: i64) -> (r: bool)
        ensures
            r == alive_spec(self@, now),
    {
        (self.last_heartbeat as i128) + (STALE_AFTER_SECS as i128) >= (now as i128)
    }

    /// Liveness: a heartbeat was seen recently (by the clock's reading).
    pub fn alive(&self) -> (r: bool)
        ensures
            exists|now: i64| r == alive_spec(self@, now),
    {
        let now = Time::now_secs();
        self.alive_at(now)
    }

    /// The status snapshot at time `now`, `uptime_secs` after start.
    pub fn health_at(&self, now: i64, uptime_secs: u64) -> (h: Health)
        ensures
            health_spec(self@, now, uptime_secs, h),
    {
        let telegram: &'static str = if self.telegram_ok {
            "ok"
        } else {
            "unreachable"
        };
        assert(telegram@ == (if self.telegram_ok { "ok"@ } else { "unreachable"@ }));
        let healthy = self.telegram_ok && self.alive_at(now);
        Health {
            service: self.service,
            version: self.version,
            uptime_secs,
            telegram,
            healthy,
            last_heartbeat_ago_secs: Some(ago(now, self.last_heartbeat)),
            last_command_ago_secs: Some(ago(now, self.last_command)),
            commands_total: self.commands_total,
            dispatch_errors_total: self.dispatch_errors,
            jobs_active: self.jobs_active,
            jobs_failed_total: self.jobs_failed,
            panics_total: self.panics,
            llm_prompt_tokens_total: self.usage.prompt_tokens,
            llm_completion_tokens_total: self.usage.completion_tokens,
            llm_requests_total: self.usage.requests,
            llm_cost_micro_usd_total: self.usage.cost_micro_usd,
            commands: copy_commands(&self.commands),
        }
    }

    /// The current status snapshot (at the clock's reading).
    pub fn health(&self) -> (h: Health)
        ensures
            exists|now: i64, uptime: u64| health_spec(self@, now, uptime, h),
    {
        let now = Time::now_secs();
        let uptime = elapsed_secs(&self.started);
        self.health_at(now, uptime)
    }
}

/// A copy of the per-command table.
fn copy_commands(cmds: &Vec<(&'static str, CommandHealth)>) -> (r: Vec<(&'static str, CommandHealth)>)
    ensures
        r@ == cmds@,
{
    let mut out: Vec<(&'static str, CommandHealth)> = Vec::new();
    let mut i: usize = 0;
    while i < cmds.len()
        invariant
            i <= cmds.len(),
            out@ == cmds@.take(i as int),
        decreases cmds.len() - i,
    {
        out.push(cmds[i]);
        i = i + 1;
        assert(out@ =~= cmds@.take(i as int));
    }
    assert(cmds@.take(cmds.len() as int) =~= cmds@);
    out
}

/// Seconds from `t` to `now`, never negative.
fn ago(now: i64, t: i64) -> (r: i64)
    ensures
        r == ago_spec(now, t),
{
    let d: i128 = (now as i128) - (t as i128);
    if d < 0 {
        0
    } else if d > (i64::MAX as i128) {
        i64::MAX
    } else {
        d as i64
    }
}


// ---------------------------------------------------------------------------
// Laws
// ---------------------------------------------------------------------------

/// A failed heartbeat marks Telegram unreachable, so the snapshot is no
/// longer healthy, but liveness still only depends on the last successful
/// heartbeat: the bot stays alive until that goes stale.
pub proof fn law_failed_heartbeat_keeps_liveness(m: MetricsView, now: i64)
    ensures
        ({
            let f = MetricsView { telegram_ok: false, ..m };
            &&& alive_spec(f, now) == alive_spec(m, now)
            &&& !(f.telegram_ok && alive_spec(f, now))
        }),
{
}

/// A successful heartbeat at `now` makes the bot healthy and alive for
/// the next [`STALE_AFTER_SECS`] seconds, and dead after that.
pub proof fn law_heartbeat_keeps_bot_alive(m: MetricsView, now: i64, later: i64)
    requires
        now <= later,
    ensures
        ({
            let h = MetricsView { telegram_ok: true, last_heartbeat: now, ..m };
            &&& alive_spec(h, later) <==> later - now <= STALE_AFTER_SECS
            &&& h.telegram_ok && alive_spec(h, now)
        }),
{
}

/// A job that finishes after it started leaves the number of active jobs
/// where it was, and counts one failure exactly when it failed.
pub proof fn law_job_round_trip(active: usize, failed_total: u64, failed: bool)
    ensures
        usize_specs::wrapping_sub(usize_specs::wrapping_add(active, 1), 1) == active,
        failed && failed_total < u64::MAX ==> u64_specs::wrapping_add(failed_total, 1) == failed_total + 1,
{
}

proof fn lemma_find_cmd_some(cmds: Seq<(&'static str, CommandHealth)>, name: Seq<char>)
    ensures
        find_cmd(cmds, name) matches Some(i) ==> is_first_cmd(cmds, name, i),
        find_cmd(cmds, name) is None ==> forall|i: int| 0 <= i < cmds.len() ==> cmds[i].0@ != name,
{
    if find_cmd(cmds, name) is None {
        assert forall|i: int| 0 <= i < cmds.len() implies cmds[i].0@ != name by {
            if cmds[i].0@ == name {
                lemma_first_occurrence(cmds, name, i);
            }
        }
    }
}

proof fn lemma_first_occurrence(cmds: Seq<(&'static str, CommandHealth)>, name: Seq<char>, i: int)
    requires
        0 <= i < cmds.len(),
        cmds[i].0@ == name,
    ensures
        exists|k: int| is_first_cmd(cmds, name, k),
    decreases i,
{
    if forall|j: int| 0 <= j < i ==> cmds[j].0@ != name {
        assert(is_first_cmd(cmds, name, i));
    } else {
        let j = choose|j: int| 0 <= j < i && cmds[j].0@ == name;
        lemma_first_occurrence(cmds, name, j);
    }
}

/// Recording a command bumps that command's counters and leaves every other
/// command's counters as they were.
pub proof fn law_command_counters(
    cmds: Seq<(&'static str, CommandHealth)>,
    name: &'static str,
    other: Seq<char>,
    error: bool,
)
    ensures
        command_counts(bump_command(cmds, name, error), name@) == bumped(command_counts(cmds, name@), error),
        other != name@ ==> command_counts(bump_command(cmds, name, error), other) == command_counts(cmds, other),
{
    let b = bump_command(cmds, name, error);
    lemma_find_cmd_some(cmds, name@);
    lemma_find_cmd_some(cmds, other);
    lemma_find_cmd_some(b, name@);
    lemma_find_cmd_some(b, other);
    match find_cmd(cmds, name@) {
        Some(i) => {
            assert(is_first_cmd(b, name@, i));
            if find_cmd(b, name@) is Some {
                let k = find_cmd(b, name@)->0;
                assert(k == i) by {
                    if k < i { assert(b[k].0@ != name@); }
                    if k > i { assert(b[i].0@ == name@); }
                }
            }
            if other != name@ {
                match find_cmd(cmds, other) {
                    Some(j) => {
                        assert(is_first_cmd(b, other, j));
                        let k = find_cmd(b, other)->0;
                        assert(k == j) by {
                            if k < j { assert(b[k].0@ != other); }
                            if k > j { assert(b[j].0@ == other); }
                        }
                    },
                    None => {
                        assert forall|k: int| 0 <= k < b.len() implies b[k].0@ != other by {
                            assert(b[k].0@ == cmds[k].0@);
                        }
                    },
                }
            }
        },
        None => {
            let n = cmds.len() as int;
            assert(is_first_cmd(b, name@, n));
            let k = find_cmd(b, name@)->0;
            assert(k == n) by {
                if k < n { assert(b[k].0@ != name@); }
            }
            if other != name@ {
                match find_cmd(cmds, other) {
                    Some(j) => {
                        assert(is_first_cmd(b, other, j));
                        let k2 = find_cmd(b, other)->0;
                        assert(k2 == j) by {
                            if k2 < j { assert(b[k2].0@ != other); }
                            if k2 > j { assert(b[j].0@ == other); }
                        }
                    },
                    None => {
                        assert forall|k2: int| 0 <= k2 < b.len() implies b[k2].0@ != other by {
                            if k2 < n { assert(b[k2] == cmds[k2]); }
                        }
                    },
                }
            }
        },
    }
}

/// No two entries of the per-command table share a name.
pub open spec fn distinct_names(cmds: Seq<(&'static str, CommandHealth)>) -> bool {
    forall|i: int, j: int| 0 <= i < j < cmds.len() ==> cmds[i].0@ != cmds[j].0@
}

/// Recording commands keeps one entry per command name.
pub proof fn law_one_entry_per_command(cmds: Seq<(&'static str, CommandHealth)>, name: &'static str, error: bool)
    requires
        distinct_names(cmds),
    ensures
        distinct_names(bump_command(cmds, name, error)),
{
    lemma_find_cmd_some(cmds, name@);
    let b = bump_command(cmds, name, error);
    assert forall|i: int, j: int| 0 <= i < j < b.len() implies b[i].0@ != b[j].0@ by {
        if j < cmds.len() {
            assert(b[i].0 == cmds[i].0);
            assert(b[j].0 == cmds[j].0);
        }
    }
}

// ---------------------------------------------------------------------------
// Sequences of recordings
// ---------------------------------------------------------------------------

/// One recording into the metrics, as the methods above make it.
pub enum MetricsEvent {
    /// `heartbeat_ok_at(t)`.
    HeartbeatOk(i64),
    /// `heartbeat_failed()`.
    HeartbeatFailed,
    /// `note_command_at(t)`.
    Command(i64),
    /// `note_command_named(name)`.
    CommandNamed(&'static str),
    /// `note_command_error(name)`.
    CommandError(&'static str),
    /// `note_dispatch_error()`.
    DispatchError,
    /// `job_started()`.
    JobStarted,
    /// `job_finished(failed)`.
    JobFinished(bool),
    /// `note_panic()`.
    Panic,
    /// `usage_reporter().report(prompt, completion, cost)`.
    Usage(u64, u64, u64),
}

/// The metrics after one recording: what the recording method's contract
/// states.
pub open spec fn apply_event(m: MetricsView, e: MetricsEvent) -> MetricsView {
    match e {
        MetricsEvent::HeartbeatOk(t) => MetricsView { telegram_ok: true, last_heartbeat: t, ..m },
        MetricsEvent::HeartbeatFailed => MetricsView { telegram_ok: false, ..m },
        MetricsEvent::Command(t) => MetricsView {
            last_command: t,
            commands_total: u64_specs::wrapping_add(m.commands_total, 1),
            ..m
        },
        MetricsEvent::CommandNamed(n) => MetricsView { commands: bump_command(m.commands, n, false), ..m },
        MetricsEvent::CommandError(n) => MetricsView { commands: bump_command(m.commands, n, true), ..m },
        MetricsEvent::DispatchError => MetricsView {
            dispatch_errors: u64_specs::wrapping_add(m.dispatch_errors, 1),
            ..m
        },
        MetricsEvent::JobStarted => MetricsView { jobs_active: usize_specs::wrapping_add(m.jobs_active, 1), ..m },
        MetricsEvent::JobFinished(f) => MetricsView {
            jobs_active: usize_specs::wrapping_sub(m.jobs_active, 1),
            jobs_failed: if f {
                u64_specs::wrapping_add(m.jobs_failed, 1)
            } else {
                m.jobs_failed
            },
            ..m
        },
        MetricsEvent::Panic => MetricsView { panics: u64_specs::wrapping_add(m.panics, 1), ..m },
        MetricsEvent::Usage(p, c, k) => MetricsView { usage: usage_after_report(m.usage, p, c, k), ..m },
    }
}

/// The metrics after a sequence of recordings, in order.
pub open spec fn replay(m: MetricsView, es: Seq<MetricsEvent>) -> MetricsView
    decreases es.len(),
{
    if es.len() == 0 {
        m
    } else {
        apply_event(replay(m, es.drop_last()), es.last())
    }
}

/// How many recordings of `es` satisfy `p`.
pub open spec fn count_where(es: Seq<MetricsEvent>, p: spec_fn(MetricsEvent) -> bool) -> nat
    decreases es.len(),
{
    if es.len() == 0 {
        0
    } else {
        count_where(es.drop_last(), p) + if p(es.last()) {
            1nat
        } else {
            0nat
        }
    }
}

/// The time of the last successful heartbeat in `es`, or `start`.
pub open spec fn latest_heartbeat(start: i64, es: Seq<MetricsEvent>) -> i64
    decreases es.len(),
{
    if es.len() == 0 {
        start
    } else {
        match es.last() {
            MetricsEvent::HeartbeatOk(t) => t,
            _ => latest_heartbeat(start, es.drop_last()),
        }
    }
}

/// The time of the last command in `es`, or `start`.
pub open spec fn latest_command(start: i64, es: Seq<MetricsEvent>) -> i64
    decreases es.len(),
{
    if es.len() == 0 {
        start
    } else {
        match es.last() {
            MetricsEvent::Command(t) => t,
            _ => latest_command(start, es.drop_last()),
        }
    }
}

pub open spec fn is_command(e: MetricsEvent) -> bool {
    e is Command
}

pub open spec fn is_dispatch_error(e: MetricsEvent) -> bool {
    e is DispatchError
}

pub open spec fn is_panic(e: MetricsEvent) -> bool {
    e is Panic
}

pub open spec fn is_job_started(e: MetricsEvent) -> bool {
    e is JobStarted
}

pub open spec fn is_job_finished(e: MetricsEvent) -> bool {
    e is JobFinished
}

pub open spec fn is_job_failed(e: MetricsEvent) -> bool {
    e matches MetricsEvent::JobFinished(f) && f
}

proof fn lemma_replay_times(m: MetricsView, es: Seq<MetricsEvent>)
    ensures
        replay(m, es).last_heartbeat == latest_heartbeat(m.last_heartbeat, es),
        replay(m, es).last_command == latest_command(m.last_command, es),
        replay(m, es).service == m.service,
        replay(m, es).version == m.version,
    decreases es.len(),
{
    if es.len() > 0 {
        lemma_replay_times(m, es.drop_last());
    }
}

proof fn lemma_replay_counters(m: MetricsView, es: Seq<MetricsEvent>)
    requires
        m.commands_total + count_where(es, |e: MetricsEvent| is_command(e)) <= u64::MAX,
        m.dispatch_errors + count_where(es, |e: MetricsEvent| is_dispatch_error(e)) <= u64::MAX,
        m.panics + count_where(es, |e: MetricsEvent| is_panic(e)) <= u64::MAX,
        m.jobs_failed + count_where(es, |e: MetricsEvent| is_job_failed(e)) <= u64::MAX,
    ensures
        replay(m, es).commands_total == m.commands_total + count_where(es, |e: MetricsEvent| is_command(e)),
        replay(m, es).dispatch_errors == m.dispatch_errors + count_where(es, |e: MetricsEvent| is_dispatch_error(e)),
        replay(m, es).panics == m.panics + count_where(es, |e: MetricsEvent| is_panic(e)),
        replay(m, es).jobs_failed == m.jobs_failed + count_where(es, |e: MetricsEvent| is_job_failed(e)),
    decreases es.len(),
{
    if es.len() > 0 {
        lemma_replay_counters(m, es.drop_last());
    }
}

/// The wrapping range of a `usize`.
pub open spec fn usize_range() -> int {
    usize::MAX as int + 1
}

proof fn lemma_wrapping_steps(r: usize, a: int)
    requires
        r as int == a % usize_range(),
    ensures
        usize_specs::wrapping_add(r, 1) as int == (a + 1) % usize_range(),
        usize_specs::wrapping_sub(r, 1) as int == (a - 1) % usize_range(),
{
    let m = usize_range();
    if r as int + 1 < m {
        lemma_small_mod((r + 1) as nat, m as nat);
    } else {
        lemma_mod_self_0(m);
    }
    lemma_add_mod_noop_right(1, a, m);
    assert((1 + a) % m == (a + 1) % m);
    if r >= 1 {
        lemma_small_mod((r - 1) as nat, m as nat);
    } else {
        lemma_small_mod((m - 1) as nat, m as nat);
        lemma_mod_add_multiples_vanish(-1, m);
    }
    lemma_small_mod(1, m as nat);
    lemma_sub_mod_noop(a, 1, m);
}

proof fn lemma_replay_jobs(m: MetricsView, es: Seq<MetricsEvent>)
    ensures
        replay(m, es).jobs_active as int == (m.jobs_active + count_where(es, |e: MetricsEvent| is_job_started(e))
            - count_where(es, |e: MetricsEvent| is_job_finished(e))) % usize_range(),
    decreases es.len(),
{
    let started = |e: MetricsEvent| is_job_started(e);
    let finished = |e: MetricsEvent| is_job_finished(e);
    if es.len() == 0 {
        lemma_small_mod(m.jobs_active as nat, usize_range() as nat);
    } else {
        let d = es.drop_last();
        lemma_replay_jobs(m, d);
        let a = m.jobs_active + count_where(d, started) - count_where(d, finished);
        lemma_wrapping_steps(replay(m, d).jobs_active, a);
    }
}

/// Liveness follows only the last successful heartbeat: after any
/// sequence of recordings, the bot is alive at `now` exactly when the
/// latest successful heartbeat (or, without one, the one the metrics
/// started from) is at most [`STALE_AFTER_SECS`] old. Failed heartbeats,
/// commands, jobs, panics and usage never change it.
pub proof fn law_liveness_follows_last_heartbeat(m: MetricsView, es: Seq<MetricsEvent>, now: i64)
    ensures
        alive_spec(replay(m, es), now) == (latest_heartbeat(m.last_heartbeat, es) + STALE_AFTER_SECS >= now),
{
    lemma_replay_times(m, es);
}

/// The health snapshot after any sequence of recordings counts them: every
/// command, dispatch error, panic and failed job adds one to its counter,
/// the active jobs are those started and not yet finished, and the ages are
/// those of the latest heartbeat and command (as long as no counter
/// overflows and no more jobs finish than started).
pub proof fn law_health_counts_recordings(
    m: MetricsView,
    es: Seq<MetricsEvent>,
    now: i64,
    uptime: u64,
    h: Health,
)
    requires
        m.commands_total + count_where(es, |e: MetricsEvent| is_command(e)) <= u64::MAX,
        m.dispatch_errors + count_where(es, |e: MetricsEvent| is_dispatch_error(e)) <= u64::MAX,
        m.panics + count_where(es, |e: MetricsEvent| is_panic(e)) <= u64::MAX,
        m.jobs_failed + count_where(es, |e: MetricsEvent| is_job_failed(e)) <= u64::MAX,
        m.jobs_active + count_where(es, |e: MetricsEvent| is_job_started(e)) <= usize::MAX,
        count_where(es, |e: MetricsEvent| is_job_finished(e)) <= m.jobs_active + count_where(
            es,
            |e: MetricsEvent| is_job_started(e),
        ),
        health_spec(replay(m, es), now, uptime, h),
    ensures
        h.service == m.service,
        h.version == m.version,
        h.commands_total == m.commands_total + count_where(es, |e: MetricsEvent| is_command(e)),
        h.dispatch_errors_total == m.dispatch_errors + count_where(es, |e: MetricsEvent| is_dispatch_error(e)),
        h.panics_total == m.panics + count_where(es, |e: MetricsEvent| is_panic(e)),
        h.jobs_failed_total == m.jobs_failed + count_where(es, |e: MetricsEvent| is_job_failed(e)),
        h.jobs_active == m.jobs_active + count_where(es, |e: MetricsEvent| is_job_started(e)) - count_where(
            es,
            |e: MetricsEvent| is_job_finished(e),
        ),
        h.last_heartbeat_ago_secs == Some(ago_spec(now, latest_heartbeat(m.last_heartbeat, es))),
        h.last_command_ago_secs == Some(ago_spec(now, latest_command(m.last_command, es))),
{
    lemma_replay_times(m, es);
    lemma_replay_counters(m, es);
    lemma_replay_jobs(m, es);
    let v = m.jobs_active + count_where(es, |e: MetricsEvent| is_job_started(e)) - count_where(
        es,
        |e: MetricsEvent| is_job_finished(e),
    );
    lemma_small_mod(v as nat, usize_range() as nat);
}


/// LLM usage reported through the metrics' usage reporter shows in the
/// next health snapshot: each report adds its prompt tokens, completion
/// tokens and cost to the totals and one to the request count (as long as
/// no total overflows).
pub proof fn law_reported_usage_shows_in_health(
    m: MetricsView,
    prompt: u64,
    completion: u64,
    cost: u64,
    now: i64,
    uptime: u64,
    h: Health,
)
    requires
        m.usage.prompt_tokens + prompt <= u64::MAX,
        m.usage.completion_tokens + completion <= u64::MAX,
        m.usage.requests + 1 <= u64::MAX,
        m.usage.cost_micro_usd + cost <= u64::MAX,
        health_spec(MetricsView { usage: usage_after_report(m.usage, prompt, completion, cost), ..m }, now, uptime, h),
    ensures
        h.llm_prompt_tokens_total == m.usage.prompt_tokens + prompt,
        h.llm_completion_tokens_total == m.usage.completion_tokens + completion,
        h.llm_requests_total == m.usage.requests + 1,
        h.llm_cost_micro_usd_total == m.usage.cost_micro_usd + cost,
        h.commands_total == m.commands_total,
        h.jobs_active == m.jobs_active,
{
}

} // verus!
