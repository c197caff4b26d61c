//! The bot shell's own decisions: its configuration (builder, metrics
//! port, log filter), its typed errors, and the order of its startup and
//! shutdown. The caller performs each step against Telegram, the network
//! and the process, and reports how it went.

use crate::command::MenuEntry;
use crate::text::{decimal, str_equal, u64_to_string};
use vstd::prelude::*;
use vstd::string::*;

verus! {

#[verifier::external_type_specification]
#[verifier::external_body]
pub struct ExIoError(std::io::Error);

/// How long shutdown waits for in-flight background jobs, in seconds.
pub const DRAIN_GRACE_SECS: u64 = 15;

/// How often the Telegram heartbeat runs, in seconds.
pub const HEARTBEAT_INTERVAL_SECS: u64 = 60;

/// Errors surfaced while starting or running the bot.
#[derive(Debug)]
pub enum BotError {
    /// The Telegram token was rejected (revoked or invalid).
    GetMe(String),
    /// The builder was run without a bot token.
    MissingToken,
    /// The metrics port could not be bound.
    Bind { port: u16, source: std::io::Error },
}

impl BotError {
    /// The error's message.
    pub fn message(&self) -> (r: String)
        ensures
            r@ == (match *self {
                BotError::GetMe(e) => "getMe failed \u{2014} check the bot token ("@ + e@ + ")"@,
                BotError::MissingToken => "missing bot token \u{2014} set it with Bot::builder().token(...)"@,
                BotError::Bind { port, .. } => "failed to bind metrics port "@ + decimal(port as nat),
            }),
    {
        match self {
            BotError::GetMe(e) => {
                let mut out = "getMe failed \u{2014} check the bot token (".to_owned();
                out.append(e.as_str());
                out.append(")");
                out
            },
            BotError::MissingToken => "missing bot token \u{2014} set it with Bot::builder().token(...)".to_owned(),
            BotError::Bind { port, .. } => {
                let mut out = "failed to bind metrics port ".to_owned();
                out.append(u64_to_string(*port as u64).as_str());
                out
            },
        }
    }
}

/// A configured bot, ready to run.
#[derive(Debug, Clone)]
pub struct Bot {
    token: String,
    service: &'static str,
    version: &'static str,
    metrics_port: u16,
    metrics_addr: &'static str,
}

/// What a bot or a builder holds: the token (when set), the service name
/// and version, and where the metrics server binds.
pub struct BotView {
    pub token: Option<Seq<char>>,
    pub service: Seq<char>,
    pub version: Seq<char>,
    pub metrics_port: u16,
    pub metrics_addr: Seq<char>,
}

impl View for Bot {
    type V = BotView;

    closed spec fn view(&self) -> BotView {
        BotView {
            token: Some(self.token@),
            service: self.service@,
            version: self.version@,
            metrics_port: self.metrics_port,
            metrics_addr: self.metrics_addr@,
        }
    }
}

/// Builder for [`Bot`].
#[derive(Debug, Clone)]
pub struct BotBuilder {
    token: Option<String>,
    service: &'static str,
    version: &'static str,
    metrics_port: u16,
    metrics_addr: &'static str,
}

impl View for BotBuilder {
    type V = BotView;

    closed spec fn view(&self) -> BotView {
        BotView {
            token: match self.token {
                Some(t) => Some(t@),
                None => None,
            },
            service: self.service@,
            version: self.version@,
            metrics_port: self.metrics_port,
            metrics_addr: self.metrics_addr@,
        }
    }
}

impl Bot {
    /// Start building a bot: no token, empty service and version, metrics
    /// on port 0 of `0.0.0.0`.
    pub fn builder() -> (b: BotBuilder)
        ensures
            b@.token is None,
            b@.service == Seq::<char>::empty(),
            b@.version == Seq::<char>::empty(),
            b@.metrics_port == 0,
            b@.metrics_addr == "0.0.0.0"@,
    {
        proof {
            reveal_strlit("");
        }
        BotBuilder { token: None, service: "", version: "", metrics_port: 0, metrics_addr: "0.0.0.0" }
    }

    /// The Telegram bot token.
    pub fn token(&self) -> (r: &str)
        ensures
            self@.token == Some(r@),
    {
        self.token.as_str()
    }

    /// The service name, used in logs and metrics.
    pub fn service(&self) -> (r: &'static str)
        ensures
            r@ == self@.service,
    {
        self.service
    }

    /// The service version, reported in metrics.
    pub fn version(&self) -> (r: &'static str)
        ensures
            r@ == self@.version,
    {
        self.version
    }

    /// The port the metrics server binds.
    pub fn metrics_port(&self) -> (r: u16)
        ensures
            r == self@.metrics_port,
    {
        self.metrics_port
    }

    /// The address the metrics server binds.
    pub fn metrics_addr(&self) -> (r: &'static str)
        ensures
            r@ == self@.metrics_addr,
    {
        self.metrics_addr
    }
}

impl BotBuilder {
    /// The Telegram bot token.
    pub fn token(self, token: &str) -> (b: BotBuilder)
        ensures
            b@ == (BotView { token: Some(token@), ..self@ }),
    {
        BotBuilder { token: Some(token.to_owned()), ..self }
    }

    /// The service name, used in logs and metrics.
    pub fn service(self, service: &'static str) -> (b: BotBuilder)
        ensures
            b@ == (BotView { service: service@, ..self@ }),
    {
        BotBuilder { service, ..self }
    }

    /// The service version, reported in metrics.
    pub fn version(self, version: &'static str) -> (b: BotBuilder)
        ensures
            b@ == (BotView { version: version@, ..self@ }),
    {
        BotBuilder { version, ..self }
    }

    /// The port the metrics server binds.
    pub fn metrics_port(self, port: u16) -> (b: BotBuilder)
        ensures
            b@ == (BotView { metrics_port: port, ..self@ }),
    {
        BotBuilder { metrics_port: port, ..self }
    }

    /// The address the metrics server binds (default `0.0.0.0`).
    pub fn metrics_addr(self, addr: &'static str) -> (b: BotBuilder)
        ensures
            b@ == (BotView { metrics_addr: addr@, ..self@ }),
    {
        BotBuilder { metrics_addr: addr, ..self }
    }

    /// Assemble the bot, failing if no token was provided.
    pub fn build(self) -> (r: Result<Bot, BotError>)
        ensures
            match r {
                Ok(bot) => self@.token is Some && bot@ == self@,
                Err(e) => self@.token is None && e is MissingToken,
            },
    {
        match self.token {
            Some(token) => Ok(
                Bot {
                    token,
                    service: self.service,
                    version: self.version,
                    metrics_port: self.metrics_port,
                    metrics_addr: self.metrics_addr,
                },
            ),
            None => Err(BotError::MissingToken),
        }
    }
}

// ---------------------------------------------------------------------------
// The metrics port
// ---------------------------------------------------------------------------

/// `c` is an ASCII decimal digit.
pub open spec fn is_digit(c: char) -> bool {
    '0' <= c && c <= '9'
}

/// The value of a string of decimal digits.
pub open spec fn digits_value(s: Seq<char>) -> int
    decreases s.len(),
{
    if s.len() == 0 {
        0
    } else {
        10 * digits_value(s.drop_last()) + (s.last() as int - '0' as int)
    }
}

/// A string of one or more decimal digits whose value fits in a `u16`.
pub open spec fn digits_u16(body: Seq<char>) -> Option<u16> {
    if body.len() > 0 && (forall|i: int| 0 <= i < body.len() ==> is_digit(#[trigger] body[i])) && digits_value(
        body,
    ) <= u16::MAX {
        Some(digits_value(body) as u16)
    } else {
        None
    }
}

/// `str::parse::<u16>`: an optional `+`, then at least one decimal digit,
/// with a value that fits in a `u16`.
pub open spec fn parse_u16_spec(s: Seq<char>) -> Option<u16> {
    if s.len() > 0 && s[0] == '+' {
        digits_u16(s.skip(1))
    } else {
        digits_u16(s)
    }
}

/// The value of a digit string, held at 65536 once it is larger.
pub open spec fn clamped(t: Seq<char>) -> int {
    if digits_value(t) > 65536 {
        65536
    } else {
        digits_value(t)
    }
}

proof fn lemma_digits_value_nonneg(s: Seq<char>)
    requires
        forall|i: int| 0 <= i < s.len() ==> is_digit(#[trigger] s[i]),
    ensures
        digits_value(s) >= 0,
    decreases s.len(),
{
    if s.len() > 0 {
        lemma_digits_value_nonneg(s.drop_last());
    }
}

/// The digits of `s` from `start` on, read as a `u16`.
fn parse_digits(s: &str, start: usize) -> (r: Option<u16>)
    requires
        start <= s@.len(),
    ensures
        r == digits_u16(s@.skip(start as int)),
{
    let n = s.unicode_len();
    let ghost body = s@.skip(start as int);
    if start == n {
        return None;
    }
    let mut acc: u32 = 0;
    let mut i: usize = start;
    assert(body.take(0) =~= Seq::<char>::empty());
    while i < n
        invariant
            n == s@.len(),
            start <= i <= n,
            body == s@.skip(start as int),
            forall|j: int| 0 <= j < i - start ==> is_digit(#[trigger] body[j]),
            acc as int == clamped(body.take(i - start)),
        decreases n - i,
    {
        let c = s.get_char(i);
        let ghost k = i - start;
        assert(body[k] == c);
        if !('0' <= c && c <= '9') {
            assert(!is_digit(body[k]));
            return None;
        }
        assert(body.take(k + 1).drop_last() =~= body.take(k));
        assert(body.take(k + 1).last() == c);
        proof {
            assert forall|j: int| 0 <= j < k implies is_digit(#[trigger] body.take(k)[j]) by {
                assert(body.take(k)[j] == body[j]);
            }
            lemma_digits_value_nonneg(body.take(k));
        }
        let d: u32 = (c as u32) - ('0' as u32);
        let next: u32 = acc * 10 + d;
        acc = if next > 65536 {
            65536
        } else {
            next
        };
        i = i + 1;
    }
    assert(body.take(n - start) =~= body);
    if acc > 65535 {
        None
    } else {
        Some(acc as u16)
    }
}

/// Parse a port number as `str::parse::<u16>` does.
pub fn parse_u16(s: &str) -> (r: Option<u16>)
    ensures
        r == parse_u16_spec(s@),
{
    if s.unicode_len() > 0 && s.get_char(0) == '+' {
        parse_digits(s, 1)
    } else {
        assert(s@.skip(0) =~= s@);
        parse_digits(s, 0)
    }
}

/// The metrics server, as configured.
pub struct Server;

/// The port a service's metrics server listens on: the
/// `TELEBOTS_METRICS_PORT` value when it parses as a port, else the
/// per-service default (degen 9101, imagine 9102, else 9100).
pub open spec fn port_spec(service: Seq<char>, env: Option<Seq<char>>) -> u16 {
    match env {
        Some(raw) if parse_u16_spec(raw) is Some => parse_u16_spec(raw)->0,
        _ => if service == "degen"@ {
            9101
        } else if service == "imagine"@ {
            9102
        } else {
            9100
        },
    }
}

impl Server {
    /// The HTTP status of `/healthz`: 200 while the bot is alive, else 503.
    pub fn status_code(alive: bool) -> (s: u16)
        ensures
            s == if alive {
                200u16
            } else {
                503u16
            },
    {
        if alive {
            200
        } else {
            503
        }
    }

    /// The port this service listens on, given the value of
    /// `TELEBOTS_METRICS_PORT` (when set).
    pub fn port_for(service: &str, env: Option<&str>) -> (p: u16)
        ensures
            p == port_spec(service@, match env {
                Some(e) => Some(e@),
                None => None,
            }),
    {
        if let Some(raw) = env {
            if let Some(port) = parse_u16(raw) {
                return port;
            }
        }
        if str_equal(service, "degen") {
            9101
        } else if str_equal(service, "imagine") {
            9102
        } else {
            9100
        }
    }
}

// ---------------------------------------------------------------------------
// Logging
// ---------------------------------------------------------------------------

/// One-shot process setup: the tracing filter and output format.
pub struct Telemetry;

impl Telemetry {
    /// The log filter used when `RUST_LOG` is not set.
    pub fn fallback_filter(service: &str) -> (r: String)
        ensures
            r@ == service@ + "=info,teloxide=warn,reqwest=warn"@,
    {
        let mut out = service.to_owned();
        out.append("=info,teloxide=warn,reqwest=warn");
        out
    }

    /// Whether logs are JSON, given the value of `TELEBOTS_LOG_JSON` (when
    /// set): only the value `1` switches JSON on.
    pub fn json_output(env: Option<&str>) -> (r: bool)
        ensures
            r == (match env {
                Some(e) => e@ == "1"@,
                None => false,
            }),
    {
        match env {
            Some(e) => str_equal(e, "1"),
            None => false,
        }
    }
}

// ---------------------------------------------------------------------------
// Startup and shutdown
// ---------------------------------------------------------------------------

/// What the runner does next.
#[derive(Debug)]
pub enum RunAction {
    /// Ask Telegram who the bot is (checks the token).
    GetMe,
    /// Register the command menu.
    RegisterMenu(Vec<MenuEntry>),
    /// Bind the metrics server.
    BindMetrics { addr: &'static str, port: u16 },
    /// Serve updates until a shutdown signal.
    Serve,
    /// Wait for in-flight background jobs, up to this many seconds.
    Drain { grace_secs: u64 },
    /// Stop with this result.
    Exit(Result<(), BotError>),
}

/// What the runner reports back.
pub enum RunEvent {
    /// The runner is starting.
    Begin,
    /// Telegram answered `getMe` (or failed, with this error text).
    Me(Result<(), String>),
    /// The menu registration finished; a failure only costs the menu.
    MenuRegistered,
    /// The metrics server bound (or failed).
    Bound(Result<(), std::io::Error>),
    /// Serving stopped after a shutdown signal.
    Stopped,
    /// The background jobs were drained.
    Drained,
}

/// The stage a run is in.
#[derive(Debug, Clone, Copy, PartialEq, Eq, Structural)]
pub enum Stage {
    Starting,
    CheckingToken,
    RegisteringMenu,
    Binding,
    Serving,
    Draining,
    Over,
}

/// One run of a bot: a revoked or invalid token fails fast, a failed menu
/// registration does not, a port that cannot be bound fails; after a
/// shutdown signal in-flight jobs are drained before the run ends.
pub struct BotRun {
    stage: Stage,
    menu: Option<Vec<MenuEntry>>,
    addr: &'static str,
    port: u16,
}

impl BotRun {
    /// A run whose metrics bind at `addr:port`; `menu` is registered after
    /// the token check, when given.
    pub fn new(menu: Option<Vec<MenuEntry>>, addr: &'static str, port: u16) -> (r: BotRun)
        ensures
            r.stage() == Stage::Starting,
            r.addr() == addr@,
            r.port() == port,
            r.menu() == menu,
    {
        BotRun { stage: Stage::Starting, menu, addr, port }
    }

    /// The stage the run is in.
    pub closed spec fn stage(&self) -> Stage {
        self.stage
    }

    /// The port the run binds.
    pub closed spec fn port(&self) -> u16 {
        self.port
    }

    /// The address the run binds.
    pub closed spec fn addr(&self) -> Seq<char> {
        self.addr@
    }

    /// The menu still to register, when any.
    pub closed spec fn menu(&self) -> Option<Vec<MenuEntry>> {
        self.menu
    }

    /// The next action, given what happened.
    pub fn next(&mut self, event: RunEvent) -> (a: RunAction)
        requires
            expects(old(self).stage(), event),
        ensures
            final(self).port() == old(self).port(),
            final(self).addr() == old(self).addr(),
            event matches RunEvent::Me(Ok(())) ==> final(self).menu() is None,
            !(event matches RunEvent::Me(Ok(()))) ==> final(self).menu() == old(self).menu(),
            match event {
                RunEvent::Begin => a is GetMe && final(self).stage() == Stage::CheckingToken,
                RunEvent::Me(Err(e)) => final(self).stage() == Stage::Over && (a matches RunAction::Exit(
                    Err(BotError::GetMe(m)),
                ) && m@ == e@),
                RunEvent::Me(Ok(())) => if old(self).menu() is Some {
                    a == RunAction::RegisterMenu(old(self).menu()->0) && final(self).stage() == Stage::RegisteringMenu
                } else {
                    final(self).stage() == Stage::Binding && binds(a, old(self).addr(), old(self).port())
                },
                RunEvent::MenuRegistered => final(self).stage() == Stage::Binding && binds(
                    a,
                    old(self).addr(),
                    old(self).port(),
                ),
                RunEvent::Bound(Err(source)) => final(self).stage() == Stage::Over && a == RunAction::Exit(
                    Err(BotError::Bind { port: old(self).port(), source }),
                ),
                RunEvent::Bound(Ok(())) => a is Serve && final(self).stage() == Stage::Serving,
                RunEvent::Stopped => final(self).stage() == Stage::Draining && a == (RunAction::Drain {
                    grace_secs: DRAIN_GRACE_SECS,
                }),
                RunEvent::Drained => final(self).stage() == Stage::Over && a == RunAction::Exit(Ok(())),
            },
    {
        match event {
            RunEvent::Begin => {
                self.stage = Stage::CheckingToken;
                RunAction::GetMe
            },
            RunEvent::Me(Err(e)) => {
                self.stage = Stage::Over;
                RunAction::Exit(Err(BotError::GetMe(e)))
            },
            RunEvent::Me(Ok(())) => {
                match self.menu.take() {
                    Some(menu) => {
                        self.stage = Stage::RegisteringMenu;
                        RunAction::RegisterMenu(menu)
                    },
                    None => {
                        self.stage = Stage::Binding;
                        RunAction::BindMetrics { addr: self.addr, port: self.port }
                    },
                }
            },
            RunEvent::MenuRegistered => {
                self.stage = Stage::Binding;
                RunAction::BindMetrics { addr: self.addr, port: self.port }
            },
            RunEvent::Bound(Err(source)) => {
                self.stage = Stage::Over;
                RunAction::Exit(Err(BotError::Bind { port: self.port, source }))
            },
            RunEvent::Bound(Ok(())) => {
                self.stage = Stage::Serving;
                RunAction::Serve
            },
            RunEvent::Stopped => {
                self.stage = Stage::Draining;
                RunAction::Drain { grace_secs: DRAIN_GRACE_SECS }
            },
            RunEvent::Drained => {
                self.stage = Stage::Over;
                RunAction::Exit(Ok(()))
            },
        }
    }
}

/// The events each stage waits for: `Begin` to start, the token check's
/// answer, the menu registration, the bind, the shutdown, the drain.
pub open spec fn expects(stage: Stage, event: RunEvent) -> bool {
    match event {
        RunEvent::Begin => stage == Stage::Starting,
        RunEvent::Me(_) => stage == Stage::CheckingToken,
        RunEvent::MenuRegistered => stage == Stage::RegisteringMenu,
        RunEvent::Bound(_) => stage == Stage::Binding,
        RunEvent::Stopped => stage == Stage::Serving,
        RunEvent::Drained => stage == Stage::Draining,
    }
}

/// `a` binds the metrics server at `addr:port`.
pub open spec fn binds(a: RunAction, addr: Seq<char>, port: u16) -> bool {
    a matches RunAction::BindMetrics { addr: x, port: p } && x@ == addr && p == port
}

} // verus!
