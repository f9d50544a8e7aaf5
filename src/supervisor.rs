//! The process supervisor: a single run slot that admits at most one agent
//! run at a time, and the events a run produces.
//!
//! The slot is a state machine: `Idle`, `Starting` (marked, process not yet
//! spawned), `Running` (process id known) and `Stopping` (process being
//! terminated). Callers serialise every access behind one lock; each method is
//! one short critical section and does no I/O.
use crate::text::{is_blank, string_of, trimmed, trimmed_chars, chars_of};
use vstd::prelude::*;

verus! {

/// Where the run slot stands.
#[derive(PartialEq, Eq, Structural, Clone, Copy, Debug)]
pub enum RunSlot {
    Idle,
    /// Marked for a run whose process is being spawned.
    Starting { ticket: u64 },
    /// Holds the process id of the active run.
    Running { ticket: u64, pid: u32 },
    /// Held by a run whose process is being terminated.
    Stopping { ticket: u64, pid: u32 },
}

/// Why a supervisor request was refused or failed.
#[derive(Debug)]
pub enum SupervisorError {
    EmptyPrompt,
    PathNotFound,
    AlreadyRunning,
    NoActiveRun,
    SpawnFailed(String),
    StopFailed(String),
}

/// The refusal `start` owes, if any: checked in this order.
pub open spec fn start_refusal(slot: RunSlot, prompt: Seq<char>, path_is_dir: bool) -> Option<SupervisorError> {
    if trimmed(prompt).len() == 0 {
        Some(SupervisorError::EmptyPrompt)
    } else if !(slot is Idle) {
        Some(SupervisorError::AlreadyRunning)
    } else if !path_is_dir {
        Some(SupervisorError::PathNotFound)
    } else {
        None
    }
}

/// The ticket handed out after `t`.
pub open spec fn next_ticket(t: u64) -> u64 {
    if t == u64::MAX {
        0
    } else {
        (t + 1) as u64
    }
}

/// The slot after a start request.
pub open spec fn slot_after_start(slot: RunSlot, issued: u64, prompt: Seq<char>, path_is_dir: bool) -> RunSlot {
    if start_refusal(slot, prompt, path_is_dir) is None {
        RunSlot::Starting { ticket: issued }
    } else {
        slot
    }
}

/// The process of the active run, if it runs and is not already being
/// stopped.
pub open spec fn stop_target(slot: RunSlot) -> Option<u32> {
    match slot {
        RunSlot::Running { pid, .. } => Some(pid),
        _ => None,
    }
}

/// What a stop request returns: the ticket of the run and the process to
/// terminate.
pub open spec fn stop_result(slot: RunSlot) -> Result<(u64, u32), SupervisorError> {
    match slot {
        RunSlot::Running { ticket, pid } => Ok((ticket, pid)),
        _ => Err(SupervisorError::NoActiveRun),
    }
}

/// The slot after a stop request: the run keeps it, marked as stopping,
/// until its process has been terminated.
pub open spec fn slot_after_stop(slot: RunSlot) -> RunSlot {
    match slot {
        RunSlot::Running { ticket, pid } => RunSlot::Stopping { ticket, pid },
        _ => slot,
    }
}

/// Whether the slot is held by the run with `ticket`.
pub open spec fn holds_ticket(slot: RunSlot, ticket: u64) -> bool {
    match slot {
        RunSlot::Idle => false,
        RunSlot::Starting { ticket: t } => t == ticket,
        RunSlot::Running { ticket: t, .. } => t == ticket,
        RunSlot::Stopping { ticket: t, .. } => t == ticket,
    }
}

/// The slot after the run with `ticket` has ended: emptied only if that run
/// still holds it.
pub open spec fn slot_after_finish(slot: RunSlot, ticket: u64) -> RunSlot {
    if holds_ticket(slot, ticket) {
        RunSlot::Idle
    } else {
        slot
    }
}

/// The slot after the process of the run with `ticket` was spawned as `pid`.
pub open spec fn slot_after_spawn(slot: RunSlot, ticket: u64, pid: u32) -> RunSlot {
    if slot == (RunSlot::Starting { ticket }) {
        RunSlot::Running { ticket, pid }
    } else {
        slot
    }
}

/// The single run slot of the process.
pub struct AgentRuntimeState {
    slot: RunSlot,
    issued: u64,
}

impl AgentRuntimeState {
    pub closed spec fn slot(&self) -> RunSlot {
        self.slot
    }

    /// The ticket the next admitted run gets.
    pub closed spec fn issued(&self) -> u64 {
        self.issued
    }

    /// An empty slot.
    pub fn new() -> (r: AgentRuntimeState)
        ensures
            r.slot() == RunSlot::Idle,
    {
        AgentRuntimeState { slot: RunSlot::Idle, issued: 0 }
    }

    /// Whether a run holds the slot, spawned or not.
    pub fn is_busy(&self) -> (r: bool)
        ensures
            r == !(self.slot() is Idle),
    {
        !matches!(self.slot, RunSlot::Idle)
    }

    /// The process id of the active run, if its process is known.
    pub fn running_pid(&self) -> (r: Option<u32>)
        ensures
            r == stop_target(self.slot()),
    {
        match self.slot {
            RunSlot::Running { pid, .. } => Some(pid),
            _ => None,
        }
    }

    /// Admits a run: the check that no run is active and the mark are one
    /// step. On success the slot is `Starting` with the returned ticket; on a
    /// refusal nothing changes.
    pub fn begin_start(&mut self, prompt: &str, path_is_dir: bool) -> (r: Result<u64, SupervisorError>)
        ensures
            match r {
                Ok(t) => start_refusal(old(self).slot(), prompt@, path_is_dir) is None
                    && t == old(self).issued()
                    && final(self).issued() == next_ticket(t),
                Err(e) => start_refusal(old(self).slot(), prompt@, path_is_dir) == Some(e)
                    && *final(self) == *old(self),
            },
            final(self).slot() == slot_after_start(old(self).slot(), old(self).issued(), prompt@, path_is_dir),
    {
        if is_blank(prompt) {
            return Err(SupervisorError::EmptyPrompt);
        }
        if self.is_busy() {
            return Err(SupervisorError::AlreadyRunning);
        }
        if !path_is_dir {
            return Err(SupervisorError::PathNotFound);
        }
        let t = self.issued;
        self.slot = RunSlot::Starting { ticket: t };
        self.issued = if t == u64::MAX { 0 } else { t + 1 };
        Ok(t)
    }

    /// Records the process id of a spawned run. Returns whether the slot was
    /// still marked for that run.
    pub fn spawned(&mut self, ticket: u64, pid: u32) -> (r: bool)
        ensures
            r == (old(self).slot() == (RunSlot::Starting { ticket })),
            final(self).slot() == slot_after_spawn(old(self).slot(), ticket, pid),
            final(self).issued() == old(self).issued(),
    {
        if self.slot == (RunSlot::Starting { ticket }) {
            self.slot = RunSlot::Running { ticket, pid };
            true
        } else {
            false
        }
    }

    /// Undoes the mark of a run whose process could not be spawned.
    pub fn spawn_failed(&mut self, ticket: u64, message: String) -> (r: SupervisorError)
        ensures
            r == SupervisorError::SpawnFailed(message),
            final(self).slot() == slot_after_finish(old(self).slot(), ticket),
            final(self).issued() == old(self).issued(),
    {
        self.finish(ticket);
        SupervisorError::SpawnFailed(message)
    }

    /// Takes a stop request: hands back the run's ticket and the process to
    /// terminate, and marks the slot as stopping so that no run is admitted
    /// while that process may live. With no running process, fails with
    /// `NoActiveRun` and changes nothing.
    pub fn begin_stop(&mut self) -> (r: Result<(u64, u32), SupervisorError>)
        ensures
            r == stop_result(old(self).slot()),
            r is Err ==> *final(self) == *old(self),
            final(self).slot() == slot_after_stop(old(self).slot()),
            final(self).issued() == old(self).issued(),
    {
        match self.slot {
            RunSlot::Running { ticket, pid } => {
                self.slot = RunSlot::Stopping { ticket, pid };
                Ok((ticket, pid))
            },
            _ => Err(SupervisorError::NoActiveRun),
        }
    }

    /// Completes a stop request once the termination call has returned:
    /// releases the slot of the run with `ticket` whatever the call gave (a
    /// slot that names a process that cannot be reached would refuse all work),
    /// and returns the `ForceStopped` event, or `StopFailed` with the
    /// termination error.
    pub fn complete_stop(&mut self, ticket: u64, kill: Result<(), String>) -> (r: Result<AgentEvent, SupervisorError>)
        ensures
            final(self).slot() == slot_after_finish(old(self).slot(), ticket),
            final(self).issued() == old(self).issued(),
            match kill {
                Ok(()) => r matches Ok(e) && e@ == EventView::ForceStopped,
                Err(m) => r == Err::<AgentEvent, SupervisorError>(SupervisorError::StopFailed(m)),
            },
    {
        self.finish(ticket);
        stop_outcome(kill)
    }

    /// Releases the slot when the run with `ticket` has ended, if that run
    /// still holds it. Returns whether it released it.
    pub fn finish(&mut self, ticket: u64) -> (r: bool)
        ensures
            r == holds_ticket(old(self).slot(), ticket),
            final(self).slot() == slot_after_finish(old(self).slot(), ticket),
            final(self).issued() == old(self).issued(),
    {
        let held = match self.slot {
            RunSlot::Idle => false,
            RunSlot::Starting { ticket: t } => t == ticket,
            RunSlot::Running { ticket: t, .. } => t == ticket,
            RunSlot::Stopping { ticket: t, .. } => t == ticket,
        };
        if held {
            self.slot = RunSlot::Idle;
        }
        held
    }
}


/// The text of a supervisor error, as callers see it.
pub open spec fn error_text(e: SupervisorError) -> Seq<char> {
    match e {
        SupervisorError::EmptyPrompt => "Prompt is required"@,
        SupervisorError::PathNotFound => "Repository path does not exist"@,
        SupervisorError::AlreadyRunning => "An agent is already running"@,
        SupervisorError::NoActiveRun => "No agent process is currently running"@,
        SupervisorError::SpawnFailed(m) => m@,
        SupervisorError::StopFailed(m) => if m@.len() == 0 {
            "Failed to stop running agent"@
        } else {
            m@
        },
    }
}

impl SupervisorError {
    /// The text of the error.
    pub fn message(&self) -> (r: String)
        ensures
            r@ == error_text(*self),
    {
        match self {
            SupervisorError::EmptyPrompt => String::from_str("Prompt is required"),
            SupervisorError::PathNotFound => String::from_str("Repository path does not exist"),
            SupervisorError::AlreadyRunning => String::from_str("An agent is already running"),
            SupervisorError::NoActiveRun => String::from_str("No agent process is currently running"),
            SupervisorError::SpawnFailed(m) => m.clone(),
            SupervisorError::StopFailed(m) => {
                if m.as_str().unicode_len() == 0 {
                    String::from_str("Failed to stop running agent")
                } else {
                    m.clone()
                }
            },
        }
    }
}

/// The command-line arguments of an agent run: the trimmed prompt, the
/// streaming output options, and `--force` when approval is forced.
pub open spec fn agent_arg_list(prompt: Seq<char>, force: bool) -> Seq<Seq<char>> {
    let base = seq![trimmed(prompt), "--output-format"@, "stream-json"@, "--print"@];
    if force {
        base.push("--force"@)
    } else {
        base
    }
}

/// Builds the arguments of the agent's command line. Approval is forced
/// unless `force_approve` says otherwise.
pub fn agent_args(prompt: &str, force_approve: Option<bool>) -> (r: Vec<String>)
    ensures
        r@.map_values(|a: String| a@) == agent_arg_list(
            prompt@,
            match force_approve {
                Some(b) => b,
                None => true,
            },
        ),
{
    let chars = chars_of(prompt);
    let t = trimmed_chars(chars.as_slice());
    let mut r: Vec<String> = Vec::new();
    r.push(string_of(t.as_slice()));
    r.push(String::from_str("--output-format"));
    r.push(String::from_str("stream-json"));
    r.push(String::from_str("--print"));
    let force = match force_approve {
        Some(b) => b,
        None => true,
    };
    if force {
        r.push(String::from_str("--force"));
    }
    assert(r@.map_values(|a: String| a@) =~= agent_arg_list(prompt@, force));
    r
}

/// The output stream a line was read from.
#[derive(PartialEq, Eq, Structural, Clone, Copy, Debug)]
pub enum OutputStream {
    Stdout,
    Stderr,
}

/// One line of a run's output.
pub struct AgentStreamPayload {
    pub run_id: String,
    pub agent_id: i64,
    pub line: String,
}

/// The end of a run.
pub struct AgentDonePayload {
    pub run_id: String,
    pub agent_id: i64,
    pub success: bool,
}

/// An event of the supervisor.
pub enum AgentEvent {
    Stdout(AgentStreamPayload),
    Stderr(AgentStreamPayload),
    Done(AgentDonePayload),
    ForceStopped,
}

/// The mathematical form of an `AgentEvent`.
pub enum EventView {
    Line(OutputStream, Seq<char>, i64, Seq<char>),
    Done(Seq<char>, i64, bool),
    ForceStopped,
}

impl View for AgentEvent {
    type V = EventView;

    open spec fn view(&self) -> EventView {
        match self {
            AgentEvent::Stdout(p) => EventView::Line(OutputStream::Stdout, p.run_id@, p.agent_id, p.line@),
            AgentEvent::Stderr(p) => EventView::Line(OutputStream::Stderr, p.run_id@, p.agent_id, p.line@),
            AgentEvent::Done(p) => EventView::Done(p.run_id@, p.agent_id, p.success),
            AgentEvent::ForceStopped => EventView::ForceStopped,
        }
    }
}

/// The topic an event is published under.
pub open spec fn topic_of(e: EventView) -> Seq<char> {
    match e {
        EventView::Line(OutputStream::Stdout, ..) => "repo-agent-stdout"@,
        EventView::Line(OutputStream::Stderr, ..) => "repo-agent-stderr"@,
        EventView::Done(..) => "repo-agent-done"@,
        EventView::ForceStopped => "repo-agent-force-stop"@,
    }
}

impl AgentEvent {
    /// The topic the event is published under.
    pub fn topic(&self) -> (r: &'static str)
        ensures
            r@ == topic_of(self@),
    {
        match self {
            AgentEvent::Stdout(_) => "repo-agent-stdout",
            AgentEvent::Stderr(_) => "repo-agent-stderr",
            AgentEvent::Done(_) => "repo-agent-done",
            AgentEvent::ForceStopped => "repo-agent-force-stop",
        }
    }
}

/// The outcome of a stop request once the termination call has returned:
/// a `ForceStopped` event, or `StopFailed` with the termination error.
pub fn stop_outcome(kill: Result<(), String>) -> (r: Result<AgentEvent, SupervisorError>)
    ensures
        match kill {
            Ok(()) => r matches Ok(e) && e@ == EventView::ForceStopped,
            Err(m) => r == Err::<AgentEvent, SupervisorError>(SupervisorError::StopFailed(m)),
        },
{
    match kill {
        Ok(()) => Ok(AgentEvent::ForceStopped),
        Err(m) => Err(SupervisorError::StopFailed(m)),
    }
}

/// The event for one line of a run's output.
pub open spec fn line_view(run_id: Seq<char>, agent_id: i64, line: (OutputStream, Seq<char>)) -> EventView {
    EventView::Line(line.0, run_id, agent_id, line.1)
}

/// Turns the output of one run into events and closes the run. Lines from
/// both streams are handed over in the order they were read.
pub struct RunCoordinator {
    ticket: u64,
    run_id: String,
    agent_id: i64,
    fed: Ghost<Seq<(OutputStream, Seq<char>)>>,
}

impl RunCoordinator {
    pub closed spec fn ticket(&self) -> u64 {
        self.ticket
    }

    pub closed spec fn run_id(&self) -> Seq<char> {
        self.run_id@
    }

    pub closed spec fn agent_id(&self) -> i64 {
        self.agent_id
    }

    /// The lines handed over so far, with their streams, in order.
    pub closed spec fn fed(&self) -> Seq<(OutputStream, Seq<char>)> {
        self.fed@
    }

    /// A coordinator for the run admitted with `ticket`.
    pub fn new(ticket: u64, run_id: String, agent_id: i64) -> (r: RunCoordinator)
        ensures
            r.ticket() == ticket,
            r.run_id() == run_id@,
            r.agent_id() == agent_id,
            r.fed() == Seq::<(OutputStream, Seq<char>)>::empty(),
    {
        RunCoordinator { ticket, run_id, agent_id, fed: Ghost(Seq::empty()) }
    }

    /// The event for a line read from `stream`: the next of the run's line
    /// events.
    pub fn line(&mut self, stream: OutputStream, text: String) -> (r: AgentEvent)
        ensures
            r@ == line_view(old(self).run_id(), old(self).agent_id(), (stream, text@)),
            final(self).fed() == old(self).fed().push((stream, text@)),
            final(self).ticket() == old(self).ticket(),
            final(self).run_id() == old(self).run_id(),
            final(self).agent_id() == old(self).agent_id(),
            line_views(final(self).run_id(), final(self).agent_id(), final(self).fed()) == line_views(
                old(self).run_id(),
                old(self).agent_id(),
                old(self).fed(),
            ).push(r@),
    {
        proof {
            let before = self.fed@;
            self.fed = Ghost(before.push((stream, text@)));
            assert(line_views(self.run_id@, self.agent_id, self.fed@) =~= line_views(
                self.run_id@,
                self.agent_id,
                before,
            ).push(line_view(self.run_id@, self.agent_id, (stream, text@))));
        }
        let payload = AgentStreamPayload { run_id: self.run_id.clone(), agent_id: self.agent_id, line: text };
        match stream {
            OutputStream::Stdout => AgentEvent::Stdout(payload),
            OutputStream::Stderr => AgentEvent::Stderr(payload),
        }
    }

    /// Closes the run once both streams are drained and the process has
    /// exited: releases the slot if the run still holds it and returns the one
    /// terminal event, which carries the exit status.
    pub fn finish(self, state: &mut AgentRuntimeState, success: bool) -> (r: AgentEvent)
        ensures
            r@ == EventView::Done(self.run_id(), self.agent_id(), success),
            line_views(self.run_id(), self.agent_id(), self.fed()).push(r@) == run_events(
                self.run_id(),
                self.agent_id(),
                self.fed(),
                success,
            ),
            final(state).slot() == slot_after_finish(old(state).slot(), self.ticket()),
            final(state).issued() == old(state).issued(),
    {
        state.finish(self.ticket);
        AgentEvent::Done(AgentDonePayload { run_id: self.run_id, agent_id: self.agent_id, success })
    }
}

/// The line events of a run whose output was `lines`.
pub open spec fn line_views(run_id: Seq<char>, agent_id: i64, lines: Seq<(OutputStream, Seq<char>)>) -> Seq<EventView> {
    lines.map_values(|l: (OutputStream, Seq<char>)| line_view(run_id, agent_id, l))
}

/// Every event of a run whose output was `lines`, in the order they were
/// read, followed by its terminal event.
pub open spec fn run_events(
    run_id: Seq<char>,
    agent_id: i64,
    lines: Seq<(OutputStream, Seq<char>)>,
    success: bool,
) -> Seq<EventView> {
    line_views(run_id, agent_id, lines).push(EventView::Done(run_id, agent_id, success))
}

/// The lines of `stream`, in order.
pub open spec fn stream_lines(lines: Seq<(OutputStream, Seq<char>)>, stream: OutputStream) -> Seq<Seq<char>>
    decreases lines.len(),
{
    if lines.len() == 0 {
        Seq::empty()
    } else if lines.last().0 == stream {
        stream_lines(lines.drop_last(), stream).push(lines.last().1)
    } else {
        stream_lines(lines.drop_last(), stream)
    }
}

/// The lines that the line events of `stream` carry, in order.
pub open spec fn stream_events(events: Seq<EventView>, stream: OutputStream) -> Seq<Seq<char>>
    decreases events.len(),
{
    if events.len() == 0 {
        Seq::empty()
    } else {
        match events.last() {
            EventView::Line(s, _, _, l) => if s == stream {
                stream_events(events.drop_last(), stream).push(l)
            } else {
                stream_events(events.drop_last(), stream)
            },
            _ => stream_events(events.drop_last(), stream),
        }
    }
}

/// How many terminal events `events` holds.
pub open spec fn done_count(events: Seq<EventView>) -> nat
    decreases events.len(),
{
    if events.len() == 0 {
        0
    } else {
        done_count(events.drop_last()) + if events.last() is Done { 1nat } else { 0nat }
    }
}

proof fn lemma_line_views(run_id: Seq<char>, agent_id: i64, lines: Seq<(OutputStream, Seq<char>)>)
    ensures
        forall|s: OutputStream|
            #[trigger] stream_events(line_views(run_id, agent_id, lines), s) == stream_lines(lines, s),
        done_count(line_views(run_id, agent_id, lines)) == 0,
    decreases lines.len(),
{
    let views = line_views(run_id, agent_id, lines);
    if lines.len() > 0 {
        let prev = lines.drop_last();
        lemma_line_views(run_id, agent_id, prev);
        assert(views.drop_last() =~= line_views(run_id, agent_id, prev));
        assert(views.last() == line_view(run_id, agent_id, lines.last()));
        assert forall|s: OutputStream| #[trigger] stream_events(views, s) == stream_lines(lines, s) by {
            assert(stream_events(views.drop_last(), s) == stream_lines(prev, s));
        }
    } else {
        assert(views.len() == 0);
        assert forall|s: OutputStream| #[trigger] stream_events(views, s) == stream_lines(lines, s) by {
        }
    }
}

/// A run's events keep the order of each stream's lines and end with exactly
/// one terminal event, which carries the exit status. The events a
/// `RunCoordinator` returns, from its `line` calls and then `finish`, are
/// `run_events` of the lines it was handed (`fed`), by their contracts.
pub proof fn lemma_run_stream_order(
    run_id: Seq<char>,
    agent_id: i64,
    lines: Seq<(OutputStream, Seq<char>)>,
    success: bool,
)
    ensures
        stream_events(run_events(run_id, agent_id, lines, success), OutputStream::Stdout)
            == stream_lines(lines, OutputStream::Stdout),
        stream_events(run_events(run_id, agent_id, lines, success), OutputStream::Stderr)
            == stream_lines(lines, OutputStream::Stderr),
        run_events(run_id, agent_id, lines, success).last() == EventView::Done(run_id, agent_id, success),
        done_count(run_events(run_id, agent_id, lines, success)) == 1,
{
    let views = line_views(run_id, agent_id, lines);
    let all = run_events(run_id, agent_id, lines, success);
    lemma_line_views(run_id, agent_id, lines);
    assert(all.drop_last() =~= views);
    assert(stream_events(views, OutputStream::Stdout) == stream_lines(lines, OutputStream::Stdout));
    assert(stream_events(views, OutputStream::Stderr) == stream_lines(lines, OutputStream::Stderr));
}

/// Outcomes of start requests handled one after another, `None` for one that
/// was admitted.
pub open spec fn start_outcomes(slot: RunSlot, issued: u64, reqs: Seq<(Seq<char>, bool)>) -> Seq<Option<SupervisorError>>
    decreases reqs.len(),
{
    if reqs.len() == 0 {
        Seq::empty()
    } else {
        let refusal = start_refusal(slot, reqs[0].0, reqs[0].1);
        seq![refusal] + start_outcomes(
            slot_after_start(slot, issued, reqs[0].0, reqs[0].1),
            if refusal is None { next_ticket(issued) } else { issued },
            reqs.drop_first(),
        )
    }
}

/// Whether a start request has a non-blank prompt and an existing directory.
pub open spec fn valid_start(req: (Seq<char>, bool)) -> bool {
    trimmed(req.0).len() > 0 && req.1
}

proof fn lemma_busy_refuses_all(slot: RunSlot, issued: u64, reqs: Seq<(Seq<char>, bool)>)
    requires
        !(slot is Idle),
        forall|i: int| 0 <= i < reqs.len() ==> valid_start(#[trigger] reqs[i]),
    ensures
        start_outcomes(slot, issued, reqs).len() == reqs.len(),
        forall|i: int| 0 <= i < reqs.len()
            ==> #[trigger] start_outcomes(slot, issued, reqs)[i] == Some(SupervisorError::AlreadyRunning),
    decreases reqs.len(),
{
    if reqs.len() > 0 {
        let rest = reqs.drop_first();
        assert(valid_start(reqs[0]));
        assert forall|i: int| 0 <= i < rest.len() implies valid_start(#[trigger] rest[i]) by {
            assert(rest[i] == reqs[i + 1]);
        }
        lemma_busy_refuses_all(slot, issued, rest);
        let out = start_outcomes(slot, issued, reqs);
        assert forall|i: int| 0 <= i < reqs.len() implies #[trigger] out[i] == Some(SupervisorError::AlreadyRunning) by {
            if i > 0 {
                assert(out[i] == start_outcomes(slot, issued, rest)[i - 1]);
            }
        }
    }
}

/// Of valid start requests that reach an empty slot, in whatever order the
/// lock admits them, exactly the first is admitted and every other one is
/// refused with `AlreadyRunning`.
/// `begin_start` returns `start_refusal` and leaves `slot_after_start`, so
/// `start_outcomes` are the results of those calls made one after another.
pub proof fn lemma_one_start_wins(issued: u64, reqs: Seq<(Seq<char>, bool)>)
    requires
        reqs.len() > 0,
        forall|i: int| 0 <= i < reqs.len() ==> valid_start(#[trigger] reqs[i]),
    ensures
        start_outcomes(RunSlot::Idle, issued, reqs).len() == reqs.len(),
        start_outcomes(RunSlot::Idle, issued, reqs)[0] is None,
        forall|i: int| 1 <= i < reqs.len()
            ==> #[trigger] start_outcomes(RunSlot::Idle, issued, reqs)[i] == Some(SupervisorError::AlreadyRunning),
{
    let rest = reqs.drop_first();
    assert(valid_start(reqs[0]));
    assert forall|i: int| 0 <= i < rest.len() implies valid_start(#[trigger] rest[i]) by {
        assert(rest[i] == reqs[i + 1]);
    }
    let s1 = RunSlot::Starting { ticket: issued };
    lemma_busy_refuses_all(s1, next_ticket(issued), rest);
    let out = start_outcomes(RunSlot::Idle, issued, reqs);
    assert forall|i: int| 1 <= i < reqs.len() implies #[trigger] out[i] == Some(SupervisorError::AlreadyRunning) by {
        assert(out[i] == start_outcomes(s1, next_ticket(issued), rest)[i - 1]);
    }
}

/// Two stop requests in a row on a running run: the first returns its
/// process and, once it completes, leaves the slot empty; the second fails
/// with `NoActiveRun` and leaves the slot empty. A second request that comes
/// while the first is still terminating fails the same way.
pub proof fn lemma_stop_twice(ticket: u64, pid: u32)
    ensures
        ({
            let slot = RunSlot::Running { ticket, pid };
            let stopping = slot_after_stop(slot);
            let done = slot_after_finish(stopping, ticket);
            &&& stop_result(slot) == Ok::<(u64, u32), SupervisorError>((ticket, pid))
            &&& stop_result(stopping) == Err::<(u64, u32), SupervisorError>(SupervisorError::NoActiveRun)
            &&& !(stopping is Idle)
            &&& done == RunSlot::Idle
            &&& stop_result(done) == Err::<(u64, u32), SupervisorError>(SupervisorError::NoActiveRun)
            &&& slot_after_stop(done) == RunSlot::Idle
        }),
{
}

/// A run that is started, spawned and then stopped refuses new starts until
/// its process is terminated, then leaves the slot empty; a new valid start is
/// admitted, and the first run closing late does not
/// release the new run's slot.
pub proof fn lemma_restart_after_stop(issued: u64, first: Seq<char>, second: Seq<char>, pid: u32)
    requires
        trimmed(first).len() > 0,
        trimmed(second).len() > 0,
    ensures
        ({
            let started = slot_after_start(RunSlot::Idle, issued, first, true);
            let spawned = slot_after_spawn(started, issued, pid);
            let stopping = slot_after_stop(spawned);
            let stopped = slot_after_finish(stopping, issued);
            let again = slot_after_start(stopped, next_ticket(issued), second, true);
            &&& start_refusal(RunSlot::Idle, first, true) is None
            &&& stop_result(spawned) == Ok::<(u64, u32), SupervisorError>((issued, pid))
            &&& start_refusal(stopping, second, true) == Some(SupervisorError::AlreadyRunning)
            &&& stopped == RunSlot::Idle
            &&& start_refusal(stopped, second, true) is None
            &&& again == (RunSlot::Starting { ticket: next_ticket(issued) })
            &&& slot_after_finish(again, issued) == again
        }),
{
}

} // verus!
