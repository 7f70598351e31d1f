//! The server runtime's part that decides: its options, the handshake line,
//! the check of a client's protocol version, and the order of its phases.
//!
//! The runtime binds, writes the handshake, serves until a signal to shut
//! down, drains within the shutdown timeout, calls the provider's stop hook
//! and exits. What binds, serves and waits is outside this library and
//! reports to it by events; `advance` answers each event with the phase that
//! follows and with what is to be done.

use vstd::prelude::*;
use vstd::string::StringExecFns;
use crate::error::ProviderError;
use crate::schema::{Diagnostic, DiagnosticSeverity, DiagnosticView};
use crate::text::{concat3, decimal, decimal_text, is_digit, lemma_decimal_is_digits};
use crate::types::{HANDSHAKE_PREFIX, PROTOCOL_VERSION};

verus! {

/// What `Duration::from_secs` returns for `secs`: the duration of that many
/// whole seconds.
pub uninterp spec fn duration_of_secs(secs: u64) -> core::time::Duration;

pub assume_specification[ core::time::Duration::from_secs ](secs: u64) -> (duration:
    core::time::Duration)
    ensures
        duration == duration_of_secs(secs),
;

/// The seconds that a server waits, unless told otherwise, for the calls in
/// flight to end once it was told to shut down.
pub const DEFAULT_SHUTDOWN_TIMEOUT_SECS: u64 = 30;

/// The options of a server.
#[derive(Debug)]
pub struct ServeOptions {
    /// How long the server waits for the calls in flight to end once it was
    /// told to shut down.
    pub shutdown_timeout: core::time::Duration,
}

impl Clone for ServeOptions {
    /// The same options.
    fn clone(&self) -> (copy: Self)
        ensures
            copy.shutdown_timeout == self.shutdown_timeout,
    {
        ServeOptions { shutdown_timeout: self.shutdown_timeout }
    }
}

impl Default for ServeOptions {
    /// A shutdown timeout of thirty seconds.
    fn default() -> (options: Self)
        ensures
            options.shutdown_timeout == duration_of_secs(DEFAULT_SHUTDOWN_TIMEOUT_SECS),
    {
        ServeOptions {
            shutdown_timeout: core::time::Duration::from_secs(DEFAULT_SHUTDOWN_TIMEOUT_SECS),
        }
    }
}

impl ServeOptions {
    /// The options that hold unless told otherwise.
    pub fn new() -> (options: Self)
        ensures
            options.shutdown_timeout == duration_of_secs(DEFAULT_SHUTDOWN_TIMEOUT_SECS),
    {
        ServeOptions {
            shutdown_timeout: core::time::Duration::from_secs(DEFAULT_SHUTDOWN_TIMEOUT_SECS),
        }
    }

    /// The same options with the shutdown timeout `timeout`.
    pub fn with_shutdown_timeout(self, timeout: core::time::Duration) -> (options: Self)
        ensures
            options.shutdown_timeout == timeout,
    {
        ServeOptions { shutdown_timeout: timeout }
    }
}

/// The handshake line for a server that listens at `address`, without the
/// end of line: the prefix, the protocol version in decimal and the address,
/// with a bar between them.
pub open spec fn handshake_text(address: Seq<char>) -> Seq<char> {
    HANDSHAKE_PREFIX@ + "|"@ + decimal(PROTOCOL_VERSION as nat) + "|"@ + address
}

/// The handshake line for a server that listens at `address`.
pub fn handshake_line(address: &str) -> (line: String)
    ensures
        line@ == handshake_text(address@),
{
    let version = decimal_text(PROTOCOL_VERSION as u64);
    let mut line = concat3(HANDSHAKE_PREFIX, "|", version.as_str());
    line.append("|");
    line.append(address);
    line
}

/// What a server that listens at `address` writes to its primary output:
/// the handshake line and the end of the line.
pub open spec fn handshake_output(address: Seq<char>) -> Seq<char> {
    handshake_text(address) + "\n"@
}

/// What a server writes to its primary output is the prefix, a bar, one
/// decimal digit or more, a bar, the address, and the end of the line.
pub proof fn lemma_handshake_grammar(address: Seq<char>)
    ensures
        exists|version: Seq<char>|
            {
                &&& version.len() >= 1
                &&& forall|i: int| 0 <= i < version.len() ==> is_digit(#[trigger] version[i])
                &&& handshake_output(address) == HANDSHAKE_PREFIX@ + "|"@ + version + "|"@
                    + address + "\n"@
            },
{
    let version = decimal(PROTOCOL_VERSION as nat);
    lemma_decimal_is_digits(PROTOCOL_VERSION as nat);
    assert(version.len() >= 1 && (forall|i: int|
        0 <= i < version.len() ==> is_digit(#[trigger] version[i])) && handshake_output(address)
        == HANDSHAKE_PREFIX@ + "|"@ + version + "|"@ + address + "\n"@);
}

/// The oldest protocol version that a client may speak.
pub const MIN_PROTOCOL_VERSION: u32 = 1;

/// Whether a client that speaks the protocol version `client` is served.
pub open spec fn version_accepted(client: u32) -> bool {
    client >= MIN_PROTOCOL_VERSION
}

/// Whether a client that speaks the protocol version `client` is warned that
/// it is ahead of the server.
pub open spec fn version_warned(client: u32) -> bool {
    client > PROTOCOL_VERSION
}

/// The warning to a client that speaks a newer version than the server.
pub open spec fn newer_version_warning(client: u32) -> DiagnosticView {
    DiagnosticView {
        severity: DiagnosticSeverity::Warning,
        summary: "Client protocol version is newer than the provider's"@,
        detail: Some(
            "Client speaks version "@ + decimal(client as nat) + ", provider speaks version "@
                + decimal(PROTOCOL_VERSION as nat),
        ),
        attribute: None,
    }
}

/// The text of the rejection of a client that speaks too old a version.
pub open spec fn old_version_text(client: u32) -> Seq<char> {
    "Client protocol version "@ + decimal(client as nat) + " is below the minimum supported version "@
        + decimal(MIN_PROTOCOL_VERSION as nat)
}

/// The view of a diagnostic that may be absent.
pub open spec fn optional_diagnostic(diagnostic: Option<Diagnostic>) -> Option<DiagnosticView> {
    match diagnostic {
        Some(diagnostic) => Some(diagnostic@),
        None => None,
    }
}

/// Checks the protocol version that a client speaks. A version below the
/// minimum is rejected. The others are served, a version above the
/// server's own with a warning.
pub fn check_protocol_version(client: u32) -> (result: Result<Option<Diagnostic>, ProviderError>)
    ensures
        result is Ok == version_accepted(client),
        match result {
            Ok(warning) => optional_diagnostic(warning) == if version_warned(client) {
                Some(newer_version_warning(client))
            } else {
                None
            },
            Err(failure) => failure matches ProviderError::FailedPrecondition(text) && text@
                == old_version_text(client),
        },
{
    if client < MIN_PROTOCOL_VERSION {
        let mut text = concat3(
            "Client protocol version ",
            decimal_text(client as u64).as_str(),
            " is below the minimum supported version ",
        );
        text.append(decimal_text(MIN_PROTOCOL_VERSION as u64).as_str());
        Err(ProviderError::FailedPrecondition(text))
    } else if client > PROTOCOL_VERSION {
        let mut detail = concat3(
            "Client speaks version ",
            decimal_text(client as u64).as_str(),
            ", provider speaks version ",
        );
        detail.append(decimal_text(PROTOCOL_VERSION as u64).as_str());
        Ok(
            Some(
                Diagnostic {
                    severity: DiagnosticSeverity::Warning,
                    summary: String::from_str(
                        "Client protocol version is newer than the provider's",
                    ),
                    detail: Some(detail),
                    attribute: None,
                },
            ),
        )
    } else {
        Ok(None)
    }
}

/// A client that speaks a version below the minimum is rejected; one that
/// speaks the server's own version or a higher one is served.
pub proof fn lemma_version_check(client: u32)
    ensures
        client < MIN_PROTOCOL_VERSION ==> !version_accepted(client),
        client >= PROTOCOL_VERSION ==> version_accepted(client),
{
}

/// The phases of a server, in their order.
#[derive(Debug, Clone, Copy, PartialEq, Eq, Structural)]
pub enum ServerPhase {
    /// The server is to get an address to listen at.
    Bind,
    /// The server is to write the handshake line.
    Handshake,
    /// The server takes calls.
    Serve,
    /// The server takes no new connection and lets the calls in flight end.
    Drain,
    /// The provider's stop hook is called.
    Stop,
    /// The server is done.
    Exit,
}

/// What the outside reports to the server.
#[derive(Debug, Clone, PartialEq, Eq)]
pub enum ServerEvent {
    /// An address to listen at was got.
    Bound(String),
    /// No address could be got.
    BindFailed,
    /// The handshake line was written.
    HandshakeWritten,
    /// A signal to shut down came.
    ShutdownSignal,
    /// The transport failed.
    TransportFailed,
    /// The calls in flight have ended.
    Drained,
    /// The shutdown timeout ran out before the calls in flight ended.
    DrainTimedOut,
    /// The stop hook returned; with a failure where the flag is set.
    Stopped(bool),
}

/// What the server is to do next.
#[derive(Debug, PartialEq, Eq)]
pub enum ServerAction {
    /// Nothing: the event does not belong to the phase.
    Ignore,
    /// Write this text, and nothing else, to the primary output.
    WriteHandshake(String),
    /// Take calls until a signal to shut down comes.
    Serve,
    /// Take no new connection, and wait for the calls in flight, at most for
    /// this long.
    Drain(core::time::Duration),
    /// Call the provider's stop hook.
    CallStop,
    /// Return normally.
    Finish,
    /// Return the failure that the outside reported.
    Fail,
}

/// What the server is to do next, with texts by their characters.
pub enum ActionView {
    /// Nothing.
    Ignore,
    /// Write this text.
    WriteHandshake(Seq<char>),
    /// Take calls.
    Serve,
    /// Drain, at most for this long.
    Drain(core::time::Duration),
    /// Call the stop hook.
    CallStop,
    /// Return normally.
    Finish,
    /// Return the failure.
    Fail,
}

impl View for ServerAction {
    type V = ActionView;

    open spec fn view(&self) -> ActionView {
        match self {
            ServerAction::Ignore => ActionView::Ignore,
            ServerAction::WriteHandshake(line) => ActionView::WriteHandshake(line@),
            ServerAction::Serve => ActionView::Serve,
            ServerAction::Drain(timeout) => ActionView::Drain(*timeout),
            ServerAction::CallStop => ActionView::CallStop,
            ServerAction::Finish => ActionView::Finish,
            ServerAction::Fail => ActionView::Fail,
        }
    }
}

/// What the outside reports, with texts by their characters.
pub enum EventView {
    /// An address was got.
    Bound(Seq<char>),
    /// No address could be got.
    BindFailed,
    /// The handshake line was written.
    HandshakeWritten,
    /// A signal to shut down came.
    ShutdownSignal,
    /// The transport failed.
    TransportFailed,
    /// The calls in flight have ended.
    Drained,
    /// The shutdown timeout ran out.
    DrainTimedOut,
    /// The stop hook returned.
    Stopped(bool),
}

impl View for ServerEvent {
    type V = EventView;

    open spec fn view(&self) -> EventView {
        match self {
            ServerEvent::Bound(address) => EventView::Bound(address@),
            ServerEvent::BindFailed => EventView::BindFailed,
            ServerEvent::HandshakeWritten => EventView::HandshakeWritten,
            ServerEvent::ShutdownSignal => EventView::ShutdownSignal,
            ServerEvent::TransportFailed => EventView::TransportFailed,
            ServerEvent::Drained => EventView::Drained,
            ServerEvent::DrainTimedOut => EventView::DrainTimedOut,
            ServerEvent::Stopped(failed) => EventView::Stopped(*failed),
        }
    }
}

/// The phase that follows `phase` on `event`, and what is to be done, for a
/// server whose shutdown timeout is `timeout`.
///
/// The phases follow one another without a branch but for a failure: a
/// failure to bind or of the transport ends the run with that failure, and
/// the stop hook is not called. The drain is given the shutdown timeout. The
/// stop hook is called when the drain ends, in time or not, and the run
/// ends normally whatever the hook returned. An event that does not belong
/// to the phase changes nothing.
pub open spec fn step(phase: ServerPhase, event: EventView, timeout: core::time::Duration) -> (
    ServerPhase,
    ActionView,
) {
    match (phase, event) {
        (ServerPhase::Bind, EventView::Bound(address)) => (
            ServerPhase::Handshake,
            ActionView::WriteHandshake(handshake_output(address)),
        ),
        (ServerPhase::Bind, EventView::BindFailed) => (ServerPhase::Exit, ActionView::Fail),
        (ServerPhase::Handshake, EventView::HandshakeWritten) => (
            ServerPhase::Serve,
            ActionView::Serve,
        ),
        (ServerPhase::Serve, EventView::ShutdownSignal) => (
            ServerPhase::Drain,
            ActionView::Drain(timeout),
        ),
        (ServerPhase::Serve, EventView::TransportFailed) => (ServerPhase::Exit, ActionView::Fail),
        (ServerPhase::Drain, EventView::Drained) => (ServerPhase::Stop, ActionView::CallStop),
        (ServerPhase::Drain, EventView::DrainTimedOut) => (ServerPhase::Stop, ActionView::CallStop),
        (ServerPhase::Drain, EventView::TransportFailed) => (ServerPhase::Exit, ActionView::Fail),
        (ServerPhase::Stop, EventView::Stopped(_)) => (ServerPhase::Exit, ActionView::Finish),
        _ => (phase, ActionView::Ignore),
    }
}

/// The phase that follows `phase` on `event`, and what is to be done, for a
/// server with `options`.
pub fn advance(phase: ServerPhase, event: &ServerEvent, options: &ServeOptions) -> (next: (
    ServerPhase,
    ServerAction,
))
    ensures
        (next.0, next.1@) == step(phase, event@, options.shutdown_timeout),
{
    match phase {
        ServerPhase::Bind => match event {
            ServerEvent::Bound(address) => {
                let mut output = handshake_line(address.as_str());
                output.append("\n");
                (ServerPhase::Handshake, ServerAction::WriteHandshake(output))
            },
            ServerEvent::BindFailed => (ServerPhase::Exit, ServerAction::Fail),
            _ => (phase, ServerAction::Ignore),
        },
        ServerPhase::Handshake => match event {
            ServerEvent::HandshakeWritten => (ServerPhase::Serve, ServerAction::Serve),
            _ => (phase, ServerAction::Ignore),
        },
        ServerPhase::Serve => match event {
            ServerEvent::ShutdownSignal => (
                ServerPhase::Drain,
                ServerAction::Drain(options.shutdown_timeout),
            ),
            ServerEvent::TransportFailed => (ServerPhase::Exit, ServerAction::Fail),
            _ => (phase, ServerAction::Ignore),
        },
        ServerPhase::Drain => match event {
            ServerEvent::Drained => (ServerPhase::Stop, ServerAction::CallStop),
            ServerEvent::DrainTimedOut => (ServerPhase::Stop, ServerAction::CallStop),
            ServerEvent::TransportFailed => (ServerPhase::Exit, ServerAction::Fail),
            _ => (phase, ServerAction::Ignore),
        },
        ServerPhase::Stop => match event {
            ServerEvent::Stopped(_) => (ServerPhase::Exit, ServerAction::Finish),
            _ => (phase, ServerAction::Ignore),
        },
        ServerPhase::Exit => (phase, ServerAction::Ignore),
    }
}

/// What the server does, in order, when it starts in `phase` and `events`
/// come one after the other.
pub open spec fn run(phase: ServerPhase, events: Seq<EventView>, timeout: core::time::Duration) -> Seq<
    ActionView,
>
    decreases events.len(),
{
    if events.len() == 0 {
        Seq::empty()
    } else {
        let (next, action) = step(phase, events[0], timeout);
        seq![action] + run(next, events.drop_first(), timeout)
    }
}

/// How many times `actions` write a handshake line.
pub open spec fn handshakes(actions: Seq<ActionView>) -> nat
    decreases actions.len(),
{
    if actions.len() == 0 {
        0
    } else {
        handshakes(actions.drop_first()) + if actions[0] is WriteHandshake {
            1nat
        } else {
            0nat
        }
    }
}

/// How many times `actions` call the stop hook.
pub open spec fn stops(actions: Seq<ActionView>) -> nat
    decreases actions.len(),
{
    if actions.len() == 0 {
        0
    } else {
        stops(actions.drop_first()) + if actions[0] is CallStop {
            1nat
        } else {
            0nat
        }
    }
}

/// The place of a phase in the order of the phases.
pub open spec fn rank(phase: ServerPhase) -> nat {
    match phase {
        ServerPhase::Bind => 0,
        ServerPhase::Handshake => 1,
        ServerPhase::Serve => 2,
        ServerPhase::Drain => 3,
        ServerPhase::Stop => 4,
        ServerPhase::Exit => 5,
    }
}

/// No event takes the server back to an earlier phase, and whatever it does
/// takes it to a later one.
pub proof fn lemma_phases_advance(
    phase: ServerPhase,
    event: EventView,
    timeout: core::time::Duration,
)
    ensures
        rank(step(phase, event, timeout).0) >= rank(phase),
        !(step(phase, event, timeout).1 is Ignore) ==> rank(step(phase, event, timeout).0) > rank(
            phase,
        ),
{
}

/// A run does one thing for each event.
pub proof fn lemma_run_unfolds(
    phase: ServerPhase,
    events: Seq<EventView>,
    timeout: core::time::Duration,
)
    requires
        events.len() > 0,
    ensures
        run(phase, events, timeout).len() == events.len(),
        run(phase, events, timeout)[0] == step(phase, events[0], timeout).1,
        run(phase, events, timeout).drop_first() == run(
            step(phase, events[0], timeout).0,
            events.drop_first(),
            timeout,
        ),
    decreases events.len(),
{
    let rest = events.drop_first();
    let next = step(phase, events[0], timeout).0;
    if rest.len() > 0 {
        lemma_run_unfolds(next, rest, timeout);
    }
    assert(run(phase, events, timeout).drop_first() =~= run(next, rest, timeout));
}

/// The handshake is written at most once in a run, and only in a run that
/// starts with binding.
pub proof fn lemma_handshake_at_most_once(
    phase: ServerPhase,
    events: Seq<EventView>,
    timeout: core::time::Duration,
)
    ensures
        handshakes(run(phase, events, timeout)) <= 1,
        phase != ServerPhase::Bind ==> handshakes(run(phase, events, timeout)) == 0,
    decreases events.len(),
{
    if events.len() > 0 {
        lemma_run_unfolds(phase, events, timeout);
        lemma_handshake_at_most_once(
            step(phase, events[0], timeout).0,
            events.drop_first(),
            timeout,
        );
    }
}

/// The stop hook is called at most once in a run.
pub proof fn lemma_stop_at_most_once(
    phase: ServerPhase,
    events: Seq<EventView>,
    timeout: core::time::Duration,
)
    ensures
        stops(run(phase, events, timeout)) <= 1,
        rank(phase) > rank(ServerPhase::Drain) ==> stops(run(phase, events, timeout)) == 0,
    decreases events.len(),
{
    if events.len() > 0 {
        lemma_run_unfolds(phase, events, timeout);
        lemma_stop_at_most_once(step(phase, events[0], timeout).0, events.drop_first(), timeout);
    }
}

/// Where a run starts to take calls, it has written the handshake before:
/// the handshake is the first thing that a launcher gets to see.
pub proof fn lemma_handshake_before_serving(
    phase: ServerPhase,
    events: Seq<EventView>,
    timeout: core::time::Duration,
    at: int,
)
    requires
        0 <= at < events.len(),
        run(phase, events, timeout)[at] is Serve,
    ensures
        phase == ServerPhase::Bind || phase == ServerPhase::Handshake,
        phase == ServerPhase::Bind ==> exists|before: int|
            0 <= before < at && (#[trigger] run(phase, events, timeout)[before]) is WriteHandshake,
    decreases events.len(),
{
    lemma_run_unfolds(phase, events, timeout);
    let whole = run(phase, events, timeout);
    let next = step(phase, events[0], timeout).0;
    let rest = events.drop_first();
    if at > 0 {
        assert(whole[at] == whole.drop_first()[at - 1]);
        lemma_handshake_before_serving(next, rest, timeout, at - 1);
        if phase == ServerPhase::Bind {
            if next == ServerPhase::Bind {
                let before = choose|before: int|
                    0 <= before < at - 1 && (#[trigger] run(
                        next,
                        rest,
                        timeout,
                    )[before]) is WriteHandshake;
                assert(whole[before + 1] == whole.drop_first()[before]);
                assert(whole[before + 1] is WriteHandshake);
            } else {
                assert(whole[0] is WriteHandshake);
            }
        }
    }
}

/// Where a run ends normally, it has called the stop hook before.
pub proof fn lemma_stop_before_finish(
    phase: ServerPhase,
    events: Seq<EventView>,
    timeout: core::time::Duration,
    at: int,
)
    requires
        0 <= at < events.len(),
        run(phase, events, timeout)[at] is Finish,
    ensures
        phase != ServerPhase::Exit,
        phase != ServerPhase::Stop ==> exists|before: int|
            0 <= before < at && (#[trigger] run(phase, events, timeout)[before]) is CallStop,
    decreases events.len(),
{
    lemma_run_unfolds(phase, events, timeout);
    let whole = run(phase, events, timeout);
    let next = step(phase, events[0], timeout).0;
    let rest = events.drop_first();
    if at > 0 {
        assert(whole[at] == whole.drop_first()[at - 1]);
        lemma_stop_before_finish(next, rest, timeout, at - 1);
        if phase != ServerPhase::Stop {
            if next == ServerPhase::Stop {
                assert(whole[0] is CallStop);
            } else {
                let before = choose|before: int|
                    0 <= before < at - 1 && (#[trigger] run(next, rest, timeout)[before]) is CallStop;
                assert(whole[before + 1] == whole.drop_first()[before]);
                assert(whole[before + 1] is CallStop);
            }
        }
    }
}

/// The drain ends in the call of the stop hook, whether the calls in flight
/// ended in time or not; and the run ends normally whatever the hook
/// returned.
pub proof fn lemma_drain_ends_in_stop(failed: bool, timeout: core::time::Duration)
    ensures
        step(ServerPhase::Drain, EventView::Drained, timeout) == (
            ServerPhase::Stop,
            ActionView::CallStop,
        ),
        step(ServerPhase::Drain, EventView::DrainTimedOut, timeout) == (
            ServerPhase::Stop,
            ActionView::CallStop,
        ),
        step(ServerPhase::Stop, EventView::Stopped(failed), timeout) == (
            ServerPhase::Exit,
            ActionView::Finish,
        ),
{
}

} // verus!
