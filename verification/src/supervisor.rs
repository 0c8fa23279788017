//! The backend supervisor: boot, probe, serve, and restart with growing backoff
//! whenever the backend dies.
//!
//! The supervisor decides; the application acts. Each call of `step` takes what
//! the application observed while carrying out the previous action and returns
//! the next action. `start` gives the first one.

use vstd::prelude::*;
use crate::launch::{backend_args, loopback_url, loopback_url_spec, tooltip_for, tooltip_spec, web_args};
use crate::text::string_views;
use crate::log::{log_tail, tail_note};
use crate::menu::opt_view;

verus! {

/// Seconds to wait before the next round after the backend could not be started.
pub const MISSING_RETRY_SECS: u64 = 5;

/// Seconds that a fresh backend gets to start listening.
pub const PROBE_TIMEOUT_SECS: u64 = 30;

/// Milliseconds between two looks at a running backend.
pub const WATCH_INTERVAL_MS: u64 = 400;

/// The longest wait, in seconds, before a dead backend is started again.
pub const MAX_BACKOFF_SECS: u64 = 30;

/// What the splash page is told whenever the backend's state changes.
pub enum BackendEvent {
    Booting,
    Ready { url: String },
    Crashed { note: Option<String> },
    Missing { note: Option<String> },
}

/// A backend event, with its texts as characters.
pub enum BackendEventView {
    Booting,
    Ready { url: Seq<char> },
    Crashed { note: Option<Seq<char>> },
    Missing { note: Option<Seq<char>> },
}

impl View for BackendEvent {
    type V = BackendEventView;

    open spec fn view(&self) -> BackendEventView {
        match self {
            BackendEvent::Booting => BackendEventView::Booting,
            BackendEvent::Ready { url } => BackendEventView::Ready { url: url@ },
            BackendEvent::Crashed { note } => BackendEventView::Crashed { note: opt_view(*note) },
            BackendEvent::Missing { note } => BackendEventView::Missing { note: opt_view(*note) },
        }
    }
}

/// Where the supervisor stands in its round.
#[derive(Clone, Copy)]
pub enum Stage {
    /// A round begins: is the application quitting?
    CheckingExit,
    FindingPort,
    ResolvingCommand,
    /// The log is cleared and the page is told that the backend boots.
    Announcing,
    Spawning,
    /// Waiting for the fresh backend to listen.
    Probing,
    /// The backend was put into service, or abandoned when it never listened.
    Settling,
    /// Looking whether the backend still runs.
    Watching,
    /// The backend runs: a short pause before the next look.
    Pausing,
    /// The backend is gone, a restart was asked for, or the application quits: the
    /// backend is stopped for good.
    Reaping,
    /// A failure was reported; waiting before the next round.
    Resting,
    /// The application quits; nothing follows.
    Finished,
}

/// What the application observed while it carried out the last action.
pub enum SupervisorEvent {
    /// After `CheckExit`.
    ExitChecked { exiting: bool },
    /// After `FindPort`: a free loopback port.
    PortFound { port: u16 },
    /// After `FindPort`: no port could be had.
    PortFailed { reason: String },
    /// After `ResolveCommand`: whether a backend program was found.
    CommandResolved { found: bool },
    /// After `Announce`: the profile selected at this moment.
    Announced { profile: Option<String> },
    /// After `Spawn`: the backend process runs.
    Spawned,
    /// After `Spawn`: the process could not be started.
    SpawnFailed { reason: String },
    /// After `Probe`: whether the backend listened before the deadline.
    Probed { listening: bool },
    /// After `Watch`.
    Watched { exiting: bool, restart_requested: bool, child_running: bool },
    /// After `Reap`: whether the application quits, and the backend's log.
    Reaped { exiting: bool, log: String },
    /// After `Serve`, `Abandon`, `Pause` or `Report`.
    Done,
}

/// An observation, with its texts as characters.
pub enum SupervisorEventView {
    ExitChecked { exiting: bool },
    PortFound { port: u16 },
    PortFailed { reason: Seq<char> },
    CommandResolved { found: bool },
    Announced { profile: Option<Seq<char>> },
    Spawned,
    SpawnFailed { reason: Seq<char> },
    Probed { listening: bool },
    Watched { exiting: bool, restart_requested: bool, child_running: bool },
    Reaped { exiting: bool, log: Seq<char> },
    Done,
}

impl View for SupervisorEvent {
    type V = SupervisorEventView;

    open spec fn view(&self) -> SupervisorEventView {
        match self {
            SupervisorEvent::ExitChecked { exiting } => SupervisorEventView::ExitChecked { exiting: *exiting },
            SupervisorEvent::PortFound { port } => SupervisorEventView::PortFound { port: *port },
            SupervisorEvent::PortFailed { reason } => SupervisorEventView::PortFailed { reason: reason@ },
            SupervisorEvent::CommandResolved { found } => SupervisorEventView::CommandResolved { found: *found },
            SupervisorEvent::Announced { profile } => SupervisorEventView::Announced { profile: opt_view(*profile) },
            SupervisorEvent::Spawned => SupervisorEventView::Spawned,
            SupervisorEvent::SpawnFailed { reason } => SupervisorEventView::SpawnFailed { reason: reason@ },
            SupervisorEvent::Probed { listening } => SupervisorEventView::Probed { listening: *listening },
            SupervisorEvent::Watched { exiting, restart_requested, child_running } => SupervisorEventView::Watched {
                exiting: *exiting,
                restart_requested: *restart_requested,
                child_running: *child_running,
            },
            SupervisorEvent::Reaped { exiting, log } => SupervisorEventView::Reaped { exiting: *exiting, log: log@ },
            SupervisorEvent::Done => SupervisorEventView::Done,
        }
    }
}

/// What the application is to do next.
pub enum SupervisorAction {
    /// Look whether the application quits; answer `ExitChecked`.
    CheckExit,
    /// Ask the system for a free loopback port; answer `PortFound` or `PortFailed`.
    FindPort,
    /// Find the backend program; answer `CommandResolved`.
    ResolveCommand,
    /// Clear the log, tell the page `Booting`, read the selected profile; answer `Announced`.
    Announce,
    /// Start the backend with these arguments, with the profile in its environment
    /// where there is one, and collect its output; answer `Spawned` or `SpawnFailed`.
    Spawn { args: Vec<String>, profile: Option<String> },
    /// Wait up to `timeout_secs` for the backend to listen on `port`; answer `Probed`.
    Probe { port: u16, timeout_secs: u64 },
    /// Record `url`, show `tooltip` on the tray, tell the page `Ready`; answer `Done`.
    Serve { url: String, tooltip: String },
    /// Stop the backend that never listened; answer `Done`.
    Abandon,
    /// Look whether the application quits, whether a restart was asked for, and
    /// whether the backend still runs; answer `Watched`.
    Watch,
    /// Sleep; answer `Done`.
    Pause { millis: u64 },
    /// Stop the backend, then look whether the application quits and read the log; answer `Reaped`.
    /// When it quits, supervising stops; otherwise the crash is reported.
    Reap,
    /// Tell the page `event`, then sleep `wait_secs` seconds; answer `Done`.
    Report { event: BackendEvent, wait_secs: u64 },
    /// Stop supervising.
    Exit,
}

/// An action, with its texts as characters.
pub enum SupervisorActionView {
    CheckExit,
    FindPort,
    ResolveCommand,
    Announce,
    Spawn { args: Seq<Seq<char>>, profile: Option<Seq<char>> },
    Probe { port: u16, timeout_secs: u64 },
    Serve { url: Seq<char>, tooltip: Seq<char> },
    Abandon,
    Watch,
    Pause { millis: u64 },
    Reap,
    Report { event: BackendEventView, wait_secs: u64 },
    Exit,
}

impl View for SupervisorAction {
    type V = SupervisorActionView;

    open spec fn view(&self) -> SupervisorActionView {
        match self {
            SupervisorAction::CheckExit => SupervisorActionView::CheckExit,
            SupervisorAction::FindPort => SupervisorActionView::FindPort,
            SupervisorAction::ResolveCommand => SupervisorActionView::ResolveCommand,
            SupervisorAction::Announce => SupervisorActionView::Announce,
            SupervisorAction::Spawn { args, profile } => SupervisorActionView::Spawn {
                args: string_views(args@),
                profile: opt_view(*profile),
            },
            SupervisorAction::Probe { port, timeout_secs } => SupervisorActionView::Probe {
                port: *port,
                timeout_secs: *timeout_secs,
            },
            SupervisorAction::Serve { url, tooltip } => SupervisorActionView::Serve { url: url@, tooltip: tooltip@ },
            SupervisorAction::Abandon => SupervisorActionView::Abandon,
            SupervisorAction::Watch => SupervisorActionView::Watch,
            SupervisorAction::Pause { millis } => SupervisorActionView::Pause { millis: *millis },
            SupervisorAction::Reap => SupervisorActionView::Reap,
            SupervisorAction::Report { event, wait_secs } => SupervisorActionView::Report {
                event: event@,
                wait_secs: *wait_secs,
            },
            SupervisorAction::Exit => SupervisorActionView::Exit,
        }
    }
}

/// The supervisor's state: its stage, the wait before the next restart, and the
/// port of the current backend.
pub struct Supervisor {
    stage: Stage,
    backoff_secs: u64,
    port: u16,
}

/// The supervisor's state as a value.
pub struct SupervisorView {
    pub stage: Stage,
    pub backoff_secs: u64,
    pub port: u16,
}

impl View for Supervisor {
    type V = SupervisorView;

    closed spec fn view(&self) -> SupervisorView {
        SupervisorView { stage: self.stage, backoff_secs: self.backoff_secs, port: self.port }
    }
}

/// The backoff lies between one second and `MAX_BACKOFF_SECS`.
pub open spec fn backoff_in_range(b: u64) -> bool {
    1 <= b <= MAX_BACKOFF_SECS
}

/// The wait after the next crash: twice this one, at most `MAX_BACKOFF_SECS`.
pub open spec fn escalate(b: u64) -> u64 {
    if 2 * b < MAX_BACKOFF_SECS {
        (2 * b) as u64
    } else {
        MAX_BACKOFF_SECS
    }
}

/// Whether the supervisor, at this stage, takes this observation.
pub open spec fn accepts(stage: Stage, e: SupervisorEventView) -> bool {
    match stage {
        Stage::CheckingExit => e is ExitChecked,
        Stage::FindingPort => e is PortFound || e is PortFailed,
        Stage::ResolvingCommand => e is CommandResolved,
        Stage::Announcing => e is Announced,
        Stage::Spawning => e is Spawned || e is SpawnFailed,
        Stage::Probing => e is Probed,
        Stage::Settling => e is Done,
        Stage::Watching => e is Watched,
        Stage::Pausing => e is Done,
        Stage::Reaping => e is Reaped,
        Stage::Resting => e is Done,
        Stage::Finished => false,
    }
}

/// Moves `s` to `stage`, keeping its backoff and port.
pub open spec fn at(s: SupervisorView, stage: Stage) -> SupervisorView {
    SupervisorView { stage, ..s }
}

/// Tell the page that the backend is missing, then wait before the next round.
pub open spec fn missing(note: Option<Seq<char>>) -> SupervisorActionView {
    SupervisorActionView::Report {
        event: BackendEventView::Missing { note },
        wait_secs: MISSING_RETRY_SECS,
    }
}

/// The next state and action, for an observation that the stage takes.
pub open spec fn transition(s: SupervisorView, e: SupervisorEventView) -> (SupervisorView, SupervisorActionView) {
    match e {
        SupervisorEventView::ExitChecked { exiting } => if exiting {
            (at(s, Stage::Finished), SupervisorActionView::Exit)
        } else {
            (at(s, Stage::FindingPort), SupervisorActionView::FindPort)
        },
        SupervisorEventView::PortFound { port } => (
            SupervisorView { stage: Stage::ResolvingCommand, port, ..s },
            SupervisorActionView::ResolveCommand,
        ),
        SupervisorEventView::PortFailed { reason } => (at(s, Stage::Resting), missing(Some(reason))),
        SupervisorEventView::CommandResolved { found } => if found {
            (at(s, Stage::Announcing), SupervisorActionView::Announce)
        } else {
            (at(s, Stage::Resting), missing(None))
        },
        SupervisorEventView::Announced { profile } => (
            at(s, Stage::Spawning),
            SupervisorActionView::Spawn { args: web_args(s.port), profile },
        ),
        SupervisorEventView::Spawned => (
            at(s, Stage::Probing),
            SupervisorActionView::Probe { port: s.port, timeout_secs: PROBE_TIMEOUT_SECS },
        ),
        SupervisorEventView::SpawnFailed { reason } => (at(s, Stage::Resting), missing(Some(reason))),
        SupervisorEventView::Probed { listening } => if listening {
            (
                SupervisorView { stage: Stage::Settling, backoff_secs: 1, ..s },
                SupervisorActionView::Serve {
                    url: loopback_url_spec(s.port),
                    tooltip: tooltip_spec(loopback_url_spec(s.port)),
                },
            )
        } else {
            (at(s, Stage::Settling), SupervisorActionView::Abandon)
        },
        SupervisorEventView::Watched { exiting, restart_requested, child_running } => if exiting
            || restart_requested || !child_running {
            (at(s, Stage::Reaping), SupervisorActionView::Reap)
        } else {
            (at(s, Stage::Pausing), SupervisorActionView::Pause { millis: WATCH_INTERVAL_MS })
        },
        SupervisorEventView::Reaped { exiting, log } => if exiting {
            (at(s, Stage::Finished), SupervisorActionView::Exit)
        } else {
            (
                SupervisorView { stage: Stage::Resting, backoff_secs: escalate(s.backoff_secs), ..s },
                SupervisorActionView::Report {
                    event: BackendEventView::Crashed { note: tail_note(log) },
                    wait_secs: s.backoff_secs,
                },
            )
        },
        SupervisorEventView::Done => match s.stage {
            Stage::Settling => (at(s, Stage::Watching), SupervisorActionView::Watch),
            Stage::Pausing => (at(s, Stage::Watching), SupervisorActionView::Watch),
            _ => (at(s, Stage::CheckingExit), SupervisorActionView::CheckExit),
        },
    }
}

impl Supervisor {
    #[verifier::type_invariant]
    spec fn backoff_ok(self) -> bool {
        backoff_in_range(self.backoff_secs)
    }

    /// The wait before the next restart; it always lies between one second and `MAX_BACKOFF_SECS`.
    pub fn backoff_secs(&self) -> (r: u64)
        ensures
            r == self@.backoff_secs,
            backoff_in_range(r),
            1 <= r <= 30,
    {
        proof {
            use_type_invariant(self);
        }
        self.backoff_secs
    }

    /// Where the supervisor stands.
    pub fn stage(&self) -> (r: Stage)
        ensures
            r == self@.stage,
    {
        self.stage
    }

    /// A fresh supervisor, with a backoff of one second, and its first action.
    pub fn start() -> (r: (Supervisor, SupervisorAction))
        ensures
            r.0@ == initial(),
            r.0@.stage == Stage::CheckingExit,
            r.0@.backoff_secs == 1,
            r.1@ == SupervisorActionView::CheckExit,
    {
        (Supervisor { stage: Stage::CheckingExit, backoff_secs: 1, port: 0 }, SupervisorAction::CheckExit)
    }

    /// Takes what the application observed while carrying out the last action and
    /// returns the next action.
    pub fn step(&mut self, event: SupervisorEvent) -> (action: SupervisorAction)
        requires
            accepts(old(self)@.stage, event@),
        ensures
            (final(self)@, action@) == transition(old(self)@, event@),
    {
        proof {
            use_type_invariant(&*self);
        }
        match event {
            SupervisorEvent::ExitChecked { exiting } => if exiting {
                self.stage = Stage::Finished;
                SupervisorAction::Exit
            } else {
                self.stage = Stage::FindingPort;
                SupervisorAction::FindPort
            },
            SupervisorEvent::PortFound { port } => {
                self.stage = Stage::ResolvingCommand;
                self.port = port;
                SupervisorAction::ResolveCommand
            },
            SupervisorEvent::PortFailed { reason } => {
                self.stage = Stage::Resting;
                SupervisorAction::Report {
                    event: BackendEvent::Missing { note: Some(reason) },
                    wait_secs: MISSING_RETRY_SECS,
                }
            },
            SupervisorEvent::CommandResolved { found } => if found {
                self.stage = Stage::Announcing;
                SupervisorAction::Announce
            } else {
                self.stage = Stage::Resting;
                SupervisorAction::Report {
                    event: BackendEvent::Missing { note: None },
                    wait_secs: MISSING_RETRY_SECS,
                }
            },
            SupervisorEvent::Announced { profile } => {
                self.stage = Stage::Spawning;
                SupervisorAction::Spawn { args: backend_args(self.port), profile }
            },
            SupervisorEvent::Spawned => {
                self.stage = Stage::Probing;
                SupervisorAction::Probe { port: self.port, timeout_secs: PROBE_TIMEOUT_SECS }
            },
            SupervisorEvent::SpawnFailed { reason } => {
                self.stage = Stage::Resting;
                SupervisorAction::Report {
                    event: BackendEvent::Missing { note: Some(reason) },
                    wait_secs: MISSING_RETRY_SECS,
                }
            },
            SupervisorEvent::Probed { listening } => if listening {
                self.stage = Stage::Settling;
                self.backoff_secs = 1;
                let url = loopback_url(self.port);
                let tooltip = tooltip_for(url.as_str());
                SupervisorAction::Serve { url, tooltip }
            } else {
                self.stage = Stage::Settling;
                SupervisorAction::Abandon
            },
            SupervisorEvent::Watched { exiting, restart_requested, child_running } => if exiting
                || restart_requested || !child_running {
                self.stage = Stage::Reaping;
                SupervisorAction::Reap
            } else {
                self.stage = Stage::Pausing;
                SupervisorAction::Pause { millis: WATCH_INTERVAL_MS }
            },
            SupervisorEvent::Reaped { exiting, log } => if exiting {
                self.stage = Stage::Finished;
                SupervisorAction::Exit
            } else {
                let wait = self.backoff_secs;
                let next = if wait < MAX_BACKOFF_SECS / 2 { 2 * wait } else { MAX_BACKOFF_SECS };
                self.stage = Stage::Resting;
                self.backoff_secs = next;
                SupervisorAction::Report {
                    event: BackendEvent::Crashed { note: log_tail(log.as_str()) },
                    wait_secs: wait,
                }
            },
            SupervisorEvent::Done => match self.stage {
                Stage::Settling => {
                    self.stage = Stage::Watching;
                    SupervisorAction::Watch
                },
                Stage::Pausing => {
                    self.stage = Stage::Watching;
                    SupervisorAction::Watch
                },
                _ => {
                    self.stage = Stage::CheckingExit;
                    SupervisorAction::CheckExit
                },
            },
        }
    }

    /// Whether the supervisor takes this observation now: it answers the last action.
    pub fn accepts(&self, event: &SupervisorEvent) -> (r: bool)
        ensures
            r == accepts(self@.stage, event@),
            self@.stage == Stage::Watching && event@ is Watched ==> r,
            self@.stage == Stage::Reaping && event@ is Reaped ==> r,
            self@.stage == Stage::CheckingExit && event@ is ExitChecked ==> r,
            self@.stage == Stage::Finished ==> !r,
    {
        match self.stage {
            Stage::CheckingExit => matches!(event, SupervisorEvent::ExitChecked { .. }),
            Stage::FindingPort => matches!(event, SupervisorEvent::PortFound { .. }) || matches!(event, SupervisorEvent::PortFailed { .. }),
            Stage::ResolvingCommand => matches!(event, SupervisorEvent::CommandResolved { .. }),
            Stage::Announcing => matches!(event, SupervisorEvent::Announced { .. }),
            Stage::Spawning => matches!(event, SupervisorEvent::Spawned { .. }) || matches!(event, SupervisorEvent::SpawnFailed { .. }),
            Stage::Probing => matches!(event, SupervisorEvent::Probed { .. }),
            Stage::Settling => matches!(event, SupervisorEvent::Done { .. }),
            Stage::Watching => matches!(event, SupervisorEvent::Watched { .. }),
            Stage::Pausing => matches!(event, SupervisorEvent::Done { .. }),
            Stage::Reaping => matches!(event, SupervisorEvent::Reaped { .. }),
            Stage::Resting => matches!(event, SupervisorEvent::Done { .. }),
            Stage::Finished => false,
        }
    }
}

} // verus!

verus! {

/// The backoff after `k` crashes in a row since the last successful boot.
pub open spec fn backoff_after(k: nat) -> u64
    decreases k,
{
    if k == 0 {
        1
    } else {
        escalate(backoff_after((k - 1) as nat))
    }
}

/// Every step keeps the backoff between one second and `MAX_BACKOFF_SECS`.
pub proof fn lemma_step_keeps_backoff_in_range(s: SupervisorView, e: SupervisorEventView)
    requires
        backoff_in_range(s.backoff_secs),
        accepts(s.stage, e),
    ensures
        backoff_in_range(transition(s, e).0.backoff_secs),
{
}

/// Restarts back off exponentially from one second up to thirty: after `k` crashes
/// in a row the wait is `min(2^k, 30)` seconds.
pub proof fn lemma_backoff_schedule(k: nat)
    ensures
        backoff_after(k) == (if vstd::arithmetic::power2::pow2(k) < MAX_BACKOFF_SECS {
            vstd::arithmetic::power2::pow2(k)
        } else {
            MAX_BACKOFF_SECS as nat
        }),
    decreases k,
{
    if k == 0 {
        vstd::arithmetic::power2::lemma_pow2(0);
        vstd::arithmetic::power::lemma_pow0(2);
    } else {
        lemma_backoff_schedule((k - 1) as nat);
        vstd::arithmetic::power2::lemma_pow2_unfold(k);
    }
}

/// A backend that starts listening is put into service at its loopback address,
/// and the backoff starts over at one second.
pub proof fn lemma_listening_backend_is_served(s: SupervisorView)
    requires
        s.stage == Stage::Probing,
    ensures
        transition(s, SupervisorEventView::Probed { listening: true }) == (
            SupervisorView { stage: Stage::Settling, backoff_secs: 1, port: s.port },
            SupervisorActionView::Serve {
                url: loopback_url_spec(s.port),
                tooltip: tooltip_spec(loopback_url_spec(s.port)),
            },
        ),
{
}

/// Once the application is seen to quit, supervising stops: at the start of a round
/// at once; while a backend is watched, only after that backend is stopped. A
/// finished supervisor takes no further observation.
pub proof fn lemma_quitting_stops(
    s: SupervisorView,
    restart_requested: bool,
    child_running: bool,
    log: Seq<char>,
    e: SupervisorEventView,
)
    ensures
        s.stage == Stage::CheckingExit ==> transition(s, SupervisorEventView::ExitChecked { exiting: true })
            == (at(s, Stage::Finished), SupervisorActionView::Exit),
        s.stage == Stage::Watching ==> ({
            let (s1, a1) = transition(
                s,
                SupervisorEventView::Watched { exiting: true, restart_requested, child_running },
            );
            &&& a1 == SupervisorActionView::Reap
            &&& accepts(s1.stage, SupervisorEventView::Reaped { exiting: true, log })
            &&& transition(s1, SupervisorEventView::Reaped { exiting: true, log }) == (
                at(s, Stage::Finished),
                SupervisorActionView::Exit,
            )
        }),
        !accepts(Stage::Finished, e),
{
}

/// When the backend dies, or a restart is asked for, and the application does not
/// quit: the backend is stopped, the crash is reported with the tail of its log,
/// the supervisor waits the current backoff, the backoff escalates, and a new
/// round begins.
pub proof fn lemma_crash_cycle(s: SupervisorView, restart_requested: bool, log: Seq<char>)
    requires
        s.stage == Stage::Watching,
    ensures
        ({
            let (s1, a1) = transition(
                s,
                SupervisorEventView::Watched { exiting: false, restart_requested, child_running: false },
            );
            let (s2, a2) = transition(s1, SupervisorEventView::Reaped { exiting: false, log });
            let (s3, a3) = transition(s2, SupervisorEventView::Done);
            &&& a1 == SupervisorActionView::Reap
            &&& accepts(s1.stage, SupervisorEventView::Reaped { exiting: false, log })
            &&& a2 == SupervisorActionView::Report {
                event: BackendEventView::Crashed { note: tail_note(log) },
                wait_secs: s.backoff_secs,
            }
            &&& accepts(s2.stage, SupervisorEventView::Done)
            &&& a3 == SupervisorActionView::CheckExit
            &&& s3 == SupervisorView {
                stage: Stage::CheckingExit,
                backoff_secs: escalate(s.backoff_secs),
                port: s.port,
            }
        }),
{
}

/// When no port, no program or no process can be had, the backend is reported
/// missing, and a new round begins after `MISSING_RETRY_SECS` seconds, with the
/// backoff unchanged.
pub proof fn lemma_missing_backend_retries(s: SupervisorView, e: SupervisorEventView)
    requires
        accepts(s.stage, e),
        e is PortFailed || e == (SupervisorEventView::CommandResolved { found: false }) || e is SpawnFailed,
    ensures
        ({
            let (s1, a1) = transition(s, e);
            let (s2, a2) = transition(s1, SupervisorEventView::Done);
            &&& a1 matches SupervisorActionView::Report { event: BackendEventView::Missing { .. }, wait_secs }
            &&& wait_secs == MISSING_RETRY_SECS
            &&& accepts(s1.stage, SupervisorEventView::Done)
            &&& a2 == SupervisorActionView::CheckExit
            &&& s2 == at(s, Stage::CheckingExit)
        }),
{
}

} // verus!

verus! {

/// A round that finds a port and a program starts the backend's web server on that
/// port, with the profile that was selected when the round announced the boot, and
/// then waits up to `PROBE_TIMEOUT_SECS` seconds for it on the same port.
pub proof fn lemma_boot_round(s: SupervisorView, port: u16, profile: Option<Seq<char>>)
    requires
        s.stage == Stage::CheckingExit,
    ensures
        ({
            let (s1, a1) = transition(s, SupervisorEventView::ExitChecked { exiting: false });
            let (s2, a2) = transition(s1, SupervisorEventView::PortFound { port });
            let (s3, a3) = transition(s2, SupervisorEventView::CommandResolved { found: true });
            let (s4, a4) = transition(s3, SupervisorEventView::Announced { profile });
            let (s5, a5) = transition(s4, SupervisorEventView::Spawned);
            &&& a1 == SupervisorActionView::FindPort
            &&& a2 == SupervisorActionView::ResolveCommand
            &&& a3 == SupervisorActionView::Announce
            &&& a4 == SupervisorActionView::Spawn { args: web_args(port), profile }
            &&& a5 == SupervisorActionView::Probe { port, timeout_secs: PROBE_TIMEOUT_SECS }
            &&& s5 == SupervisorView { stage: Stage::Probing, backoff_secs: s.backoff_secs, port }
        }),
{
}

} // verus!

verus! {

/// The state of a fresh supervisor.
pub open spec fn initial() -> SupervisorView {
    SupervisorView { stage: Stage::CheckingExit, backoff_secs: 1, port: 0 }
}

/// The state after the first `n` observations of `es`, from `s0`.
pub open spec fn state_after(s0: SupervisorView, es: Seq<SupervisorEventView>, n: nat) -> SupervisorView
    decreases n,
{
    if n == 0 {
        s0
    } else {
        transition(state_after(s0, es, (n - 1) as nat), es[n - 1]).0
    }
}

/// The action that the observation `es[i]` leads to.
pub open spec fn action_after(s0: SupervisorView, es: Seq<SupervisorEventView>, i: nat) -> SupervisorActionView {
    transition(state_after(s0, es, i), es[i as int]).1
}

/// Each observation of `es` answers the action before it.
pub open spec fn valid_run(s0: SupervisorView, es: Seq<SupervisorEventView>) -> bool {
    forall|i: nat| i < es.len() ==> #[trigger] accepts(state_after(s0, es, i).stage, es[i as int])
}

/// What the splash page is told when the application carries out an action.
pub open spec fn page_event(a: SupervisorActionView) -> Option<BackendEventView> {
    match a {
        SupervisorActionView::Announce => Some(BackendEventView::Booting),
        SupervisorActionView::Serve { url, .. } => Some(BackendEventView::Ready { url }),
        SupervisorActionView::Report { event, .. } => Some(event),
        _ => None,
    }
}

/// Where the page stands in the story of boots.
pub enum PageState {
    /// No boot is under way.
    Idle,
    /// A boot was announced and is not served yet.
    Booted,
    /// The announced boot is served.
    Served,
}

/// The page events that may follow: `Booting` starts a boot; within a boot at most one
/// `Ready`, and the boot ends with `Crashed`, or with `Missing` before it was served;
/// outside a boot only `Missing`; and `Missing` always carries a note.
pub open spec fn page_step(p: PageState, ev: BackendEventView) -> Option<PageState> {
    match (p, ev) {
        (PageState::Idle, BackendEventView::Booting) => Some(PageState::Booted),
        (PageState::Idle, BackendEventView::Missing { note: Some(_) }) => Some(PageState::Idle),
        (PageState::Booted, BackendEventView::Missing { note: Some(_) }) => Some(PageState::Idle),
        (PageState::Booted, BackendEventView::Ready { .. }) => Some(PageState::Served),
        (PageState::Booted, BackendEventView::Crashed { .. }) => Some(PageState::Idle),
        (PageState::Served, BackendEventView::Crashed { .. }) => Some(PageState::Idle),
        _ => None,
    }
}

/// The page's state after the actions of the first `n` observations, or `None`
/// once an event came out of order.
pub open spec fn page_after(s0: SupervisorView, es: Seq<SupervisorEventView>, n: nat) -> Option<PageState>
    decreases n,
{
    if n == 0 {
        Some(PageState::Idle)
    } else {
        match page_after(s0, es, (n - 1) as nat) {
            None => None,
            Some(p) => match page_event(action_after(s0, es, (n - 1) as nat)) {
                None => Some(p),
                Some(ev) => page_step(p, ev),
            },
        }
    }
}

/// Whether a backend started by the supervisor may still run after the actions of
/// the first `n` observations: from `Spawned` until an `Abandon` or a `Reap`.
pub open spec fn child_alive_after(s0: SupervisorView, es: Seq<SupervisorEventView>, n: nat) -> bool
    decreases n,
{
    if n == 0 {
        false
    } else {
        let i = (n - 1) as nat;
        (child_alive_after(s0, es, i) || es[i as int] is Spawned) && !(action_after(s0, es, i) is Abandon
            || action_after(s0, es, i) is Reap)
    }
}

/// The application's resolver always finds a program (`plan_launch` always gives one).
pub open spec fn program_always_found(es: Seq<SupervisorEventView>) -> bool {
    forall|i: int| 0 <= i < es.len() ==> es[i] != (SupervisorEventView::CommandResolved { found: false })
}

/// The page states that go with each stage.
pub open spec fn page_fits(stage: Stage, p: PageState) -> bool {
    match stage {
        Stage::CheckingExit | Stage::FindingPort | Stage::ResolvingCommand | Stage::Resting => p is Idle,
        Stage::Announcing | Stage::Spawning | Stage::Probing => p is Booted,
        Stage::Settling | Stage::Watching | Stage::Pausing | Stage::Reaping => p is Booted || p is Served,
        Stage::Finished => true,
    }
}

/// The stages in which a started backend may run.
pub open spec fn child_may_run(stage: Stage) -> bool {
    stage is Probing || stage is Settling || stage is Watching || stage is Pausing
}

proof fn lemma_page_invariant(es: Seq<SupervisorEventView>, n: nat)
    requires
        valid_run(initial(), es),
        program_always_found(es),
        n <= es.len(),
    ensures
        page_after(initial(), es, n) matches Some(p) && page_fits(state_after(initial(), es, n).stage, p),
    decreases n,
{
    if n > 0 {
        let i = (n - 1) as nat;
        lemma_page_invariant(es, i);
        assert(accepts(state_after(initial(), es, i).stage, es[i as int]));
        assert(es[i as int] != (SupervisorEventView::CommandResolved { found: false }));
    }
}

proof fn lemma_child_invariant(es: Seq<SupervisorEventView>, n: nat)
    requires
        valid_run(initial(), es),
        n <= es.len(),
    ensures
        child_alive_after(initial(), es, n) ==> child_may_run(state_after(initial(), es, n).stage),
    decreases n,
{
    if n > 0 {
        let i = (n - 1) as nat;
        lemma_child_invariant(es, i);
        assert(accepts(state_after(initial(), es, i).stage, es[i as int]));
    }
}

/// The page hears of boots in order: every `Ready` or `Crashed` belongs to the latest
/// `Booting`, a boot is served at most once, and the backend is never reported missing
/// without a note, in every run of a fresh supervisor whose program is always found.
pub proof fn lemma_page_events_in_order(es: Seq<SupervisorEventView>, n: nat)
    requires
        valid_run(initial(), es),
        program_always_found(es),
        n <= es.len(),
    ensures
        page_after(initial(), es, n) is Some,
{
    lemma_page_invariant(es, n);
}

/// At most one backend runs at a time: in every run of a fresh supervisor, a backend
/// is started only when none started before may still run, and supervising stops only
/// when none runs.
pub proof fn lemma_one_backend_at_a_time(es: Seq<SupervisorEventView>, i: nat)
    requires
        valid_run(initial(), es),
        i < es.len(),
    ensures
        action_after(initial(), es, i) is Spawn ==> !child_alive_after(initial(), es, i),
        action_after(initial(), es, i) is Exit ==> !child_alive_after(initial(), es, i + 1),
{
    lemma_child_invariant(es, i);
    assert(accepts(state_after(initial(), es, i).stage, es[i as int]));
    assert(state_after(initial(), es, i + 1) == transition(state_after(initial(), es, i), es[i as int]).0);
    assert(child_alive_after(initial(), es, i + 1) == ((child_alive_after(initial(), es, i)
        || es[i as int] is Spawned) && !(action_after(initial(), es, i) is Abandon || action_after(
        initial(),
        es,
        i,
    ) is Reap)));
}

} // verus!

verus! {

/// The crash reports since the last time a backend was put into service, among the
/// actions of the first `n` observations.
pub open spec fn crashes_since_serve(s0: SupervisorView, es: Seq<SupervisorEventView>, n: nat) -> nat
    decreases n,
{
    if n == 0 {
        0
    } else {
        let i = (n - 1) as nat;
        match action_after(s0, es, i) {
            SupervisorActionView::Serve { .. } => 0,
            SupervisorActionView::Report { event: BackendEventView::Crashed { .. }, .. } =>
                crashes_since_serve(s0, es, i) + 1,
            _ => crashes_since_serve(s0, es, i),
        }
    }
}

/// In every run of a fresh supervisor, the backoff is `backoff_after(k)` for the `k`
/// crashes reported since the last backend was served (or since the start), and a
/// crash report waits that backoff: the `k`-th crash in a row waits `min(2^(k-1), 30)`
/// seconds. Reports of a missing backend leave it alone.
pub proof fn lemma_backoff_follows_crashes(es: Seq<SupervisorEventView>, n: nat)
    requires
        n <= es.len(),
    ensures
        state_after(initial(), es, n).backoff_secs == backoff_after(crashes_since_serve(initial(), es, n)),
        n < es.len() ==> (action_after(initial(), es, n) matches SupervisorActionView::Report {
            event: BackendEventView::Crashed { .. },
            wait_secs,
        } ==> wait_secs == backoff_after(crashes_since_serve(initial(), es, n))),
    decreases n,
{
    if n > 0 {
        lemma_backoff_follows_crashes(es, (n - 1) as nat);
    }
}

/// A restart asked for while a backend runs leads, when the application does not quit,
/// to stopping that backend, reporting it, and a fresh boot: a new port is found and the
/// backend's web server is started on it.
pub proof fn lemma_restart_boots_fresh(
    s: SupervisorView,
    child_running: bool,
    log: Seq<char>,
    port: u16,
    profile: Option<Seq<char>>,
)
    requires
        s.stage == Stage::Watching,
    ensures
        ({
            let (s1, a1) = transition(
                s,
                SupervisorEventView::Watched { exiting: false, restart_requested: true, child_running },
            );
            let (s2, a2) = transition(s1, SupervisorEventView::Reaped { exiting: false, log });
            let (s3, a3) = transition(s2, SupervisorEventView::Done);
            let (s4, a4) = transition(s3, SupervisorEventView::ExitChecked { exiting: false });
            let (s5, a5) = transition(s4, SupervisorEventView::PortFound { port });
            let (s6, a6) = transition(s5, SupervisorEventView::CommandResolved { found: true });
            let (s7, a7) = transition(s6, SupervisorEventView::Announced { profile });
            &&& a1 == SupervisorActionView::Reap
            &&& a2 matches SupervisorActionView::Report { event: BackendEventView::Crashed { .. }, .. }
            &&& a3 == SupervisorActionView::CheckExit
            &&& a4 == SupervisorActionView::FindPort
            &&& a5 == SupervisorActionView::ResolveCommand
            &&& a6 == SupervisorActionView::Announce
            &&& page_event(a6) == Some(BackendEventView::Booting)
            &&& a7 == SupervisorActionView::Spawn { args: web_args(port), profile }
            &&& s7.port == port
        }),
{
    lemma_crash_cycle(s, true, log);
    let s3 = SupervisorView { stage: Stage::CheckingExit, backoff_secs: escalate(s.backoff_secs), port: s.port };
    lemma_boot_round(s3, port, profile);
}

} // verus!

verus! {

/// The observations that answer an action: what the application reports after it.
pub open spec fn answers(a: SupervisorActionView, e: SupervisorEventView) -> bool {
    match a {
        SupervisorActionView::CheckExit => e is ExitChecked,
        SupervisorActionView::FindPort => e is PortFound || e is PortFailed,
        SupervisorActionView::ResolveCommand => e is CommandResolved,
        SupervisorActionView::Announce => e is Announced,
        SupervisorActionView::Spawn { .. } => e is Spawned || e is SpawnFailed,
        SupervisorActionView::Probe { .. } => e is Probed,
        SupervisorActionView::Serve { .. } => e is Done,
        SupervisorActionView::Abandon => e is Done,
        SupervisorActionView::Watch => e is Watched,
        SupervisorActionView::Pause { .. } => e is Done,
        SupervisorActionView::Reap => e is Reaped,
        SupervisorActionView::Report { .. } => e is Done,
        SupervisorActionView::Exit => false,
    }
}

/// The supervisor takes every answer to the action it gave, whatever the answer's
/// fields, and nothing else: a fresh supervisor takes every answer to `CheckExit`, and
/// after each step it takes exactly the answers to the action that step returned.
pub proof fn lemma_takes_every_answer(s: SupervisorView, e: SupervisorEventView, next: SupervisorEventView)
    ensures
        accepts(initial().stage, next) <==> answers(SupervisorActionView::CheckExit, next),
        accepts(s.stage, e) ==> (accepts(transition(s, e).0.stage, next) <==> answers(transition(s, e).1, next)),
{
}

/// While a backend is watched, every look is taken, whatever its flags. When the
/// application quits, the backend is stopped and then supervising ends, whatever the
/// look saw of a restart or of the backend.
pub proof fn lemma_watching_takes_every_look(
    s: SupervisorView,
    restart_requested: bool,
    child_running: bool,
    exiting: bool,
    reaped_exiting: bool,
    log: Seq<char>,
)
    requires
        s.stage == Stage::Watching,
    ensures
        accepts(s.stage, SupervisorEventView::Watched { exiting, restart_requested, child_running }),
        exiting ==> ({
            let (s1, a1) = transition(
                s,
                SupervisorEventView::Watched { exiting, restart_requested, child_running },
            );
            &&& a1 == SupervisorActionView::Reap
            &&& accepts(s1.stage, SupervisorEventView::Reaped { exiting: reaped_exiting, log })
            &&& (reaped_exiting ==> transition(s1, SupervisorEventView::Reaped { exiting: true, log }).1
                == SupervisorActionView::Exit)
        }),
{
}

} // verus!
