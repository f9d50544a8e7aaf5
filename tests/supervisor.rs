use symphony::supervisor::{
    agent_args, stop_outcome, AgentEvent, AgentRuntimeState, OutputStream, RunCoordinator, SupervisorError,
};

fn start_running(state: &mut AgentRuntimeState, prompt: &str, pid: u32) -> u64 {
    let ticket = state.begin_start(prompt, true).expect("start admitted");
    assert!(state.spawned(ticket, pid));
    ticket
}

#[test]
fn start_valid_run_emits_done_with_success() {
    let mut state = AgentRuntimeState::new();
    let ticket = state.begin_start("fix bug", true).expect("start admitted");
    assert!(state.is_busy());
    assert!(state.spawned(ticket, 4242));
    assert_eq!(state.running_pid(), Some(4242));
    let coordinator = RunCoordinator::new(ticket, "r1".to_string(), 7);
    let done = coordinator.finish(&mut state, true);
    assert_eq!(done.topic(), "repo-agent-done");
    match done {
        AgentEvent::Done(p) => {
            assert_eq!(p.run_id, "r1");
            assert_eq!(p.agent_id, 7);
            assert!(p.success);
        }
        _ => panic!("expected a terminal event"),
    }
    assert!(!state.is_busy());
}

#[test]
fn start_missing_path_is_refused_and_slot_stays_empty() {
    let mut state = AgentRuntimeState::new();
    let r = state.begin_start("x", false);
    assert!(matches!(r, Err(SupervisorError::PathNotFound)));
    assert!(!state.is_busy());
    assert_eq!(state.running_pid(), None);
    assert_eq!(r.unwrap_err().message(), "Repository path does not exist");
}

#[test]
fn start_blank_prompt_is_refused() {
    let mut state = AgentRuntimeState::new();
    let r = state.begin_start(" \t\n", true);
    assert!(matches!(r, Err(SupervisorError::EmptyPrompt)));
    assert_eq!(r.unwrap_err().message(), "Prompt is required");
    assert!(!state.is_busy());
}

#[test]
fn second_start_while_running_is_refused() {
    let mut state = AgentRuntimeState::new();
    start_running(&mut state, "one", 10);
    let r = state.begin_start("two", true);
    assert!(matches!(r, Err(SupervisorError::AlreadyRunning)));
    assert_eq!(r.unwrap_err().message(), "An agent is already running");
    assert_eq!(state.running_pid(), Some(10));
}

#[test]
fn many_starts_one_winner() {
    let mut state = AgentRuntimeState::new();
    let mut admitted = 0;
    let mut refused = 0;
    for i in 0..8 {
        match state.begin_start(&format!("task {}", i), true) {
            Ok(_) => admitted += 1,
            Err(SupervisorError::AlreadyRunning) => refused += 1,
            Err(e) => panic!("unexpected error {:?}", e),
        }
    }
    assert_eq!(admitted, 1);
    assert_eq!(refused, 7);
}

#[test]
fn stop_without_run_fails_and_changes_nothing() {
    let mut state = AgentRuntimeState::new();
    let r = state.begin_stop();
    assert!(matches!(r, Err(SupervisorError::NoActiveRun)));
    assert_eq!(r.unwrap_err().message(), "No agent process is currently running");
    assert!(!state.is_busy());
    let ticket = state.begin_start("go", true).unwrap();
    assert!(matches!(state.begin_stop(), Err(SupervisorError::NoActiveRun)));
    assert!(state.is_busy());
    assert!(state.spawned(ticket, 3));
}

#[test]
fn stop_twice_second_fails() {
    let mut state = AgentRuntimeState::new();
    let ticket = start_running(&mut state, "go", 99);
    assert_eq!(state.begin_stop().unwrap(), (ticket, 99));
    // while the process is being terminated, the slot stays taken
    assert!(state.is_busy());
    assert!(matches!(state.begin_stop(), Err(SupervisorError::NoActiveRun)));
    assert!(matches!(state.begin_start("other", true), Err(SupervisorError::AlreadyRunning)));
    assert!(state.complete_stop(ticket, Ok(())).is_ok());
    assert!(!state.is_busy());
    assert!(matches!(state.begin_stop(), Err(SupervisorError::NoActiveRun)));
    assert!(!state.is_busy());
}

#[test]
fn stop_then_restart_succeeds() {
    let mut state = AgentRuntimeState::new();
    let first = start_running(&mut state, "first", 11);
    let (ticket, pid) = state.begin_stop().unwrap();
    assert_eq!((ticket, pid), (first, 11));
    let ev = state.complete_stop(ticket, Ok(())).unwrap();
    assert!(matches!(ev, AgentEvent::ForceStopped));
    assert_eq!(ev.topic(), "repo-agent-force-stop");
    assert!(!state.is_busy());
    let second = start_running(&mut state, "second", 12);
    assert_ne!(first, second);
    // the first run's coordinator closes late and leaves the new run alone
    assert!(!state.finish(first));
    assert_eq!(state.running_pid(), Some(12));
    assert!(state.finish(second));
    assert!(!state.is_busy());
}

#[test]
fn failed_kill_still_releases_slot() {
    let mut state = AgentRuntimeState::new();
    start_running(&mut state, "go", 7);
    let (ticket, _) = state.begin_stop().unwrap();
    let r = state.complete_stop(ticket, Err("no such process".to_string()));
    assert_eq!(r.err().unwrap().message(), "no such process");
    assert!(!state.is_busy());
    assert!(state.begin_start("again", true).is_ok());
}

#[test]
fn busy_slot_wins_over_missing_path() {
    let mut state = AgentRuntimeState::new();
    start_running(&mut state, "go", 8);
    let r = state.begin_start("other", false);
    assert!(matches!(r, Err(SupervisorError::AlreadyRunning)));
    assert_eq!(state.running_pid(), Some(8));
    assert!(matches!(state.begin_start("  ", false), Err(SupervisorError::EmptyPrompt)));
}

#[test]
fn stop_failure_is_reported() {
    let r = stop_outcome(Err("access denied".to_string()));
    match r {
        Err(e) => assert_eq!(e.message(), "access denied"),
        Ok(_) => panic!("expected failure"),
    }
    let r = stop_outcome(Err(String::new()));
    assert_eq!(r.err().unwrap().message(), "Failed to stop running agent");
}

#[test]
fn spawn_failure_resets_slot() {
    let mut state = AgentRuntimeState::new();
    let ticket = state.begin_start("go", true).unwrap();
    let e = state.spawn_failed(ticket, "Failed to start agent: not found".to_string());
    assert_eq!(e.message(), "Failed to start agent: not found");
    assert!(!state.is_busy());
    assert!(state.begin_start("again", true).is_ok());
}

#[test]
fn run_events_keep_stream_order() {
    let mut state = AgentRuntimeState::new();
    let ticket = start_running(&mut state, "go", 5);
    let mut c = RunCoordinator::new(ticket, "run-9".to_string(), 3);
    let input = [
        (OutputStream::Stdout, "a"),
        (OutputStream::Stderr, "warn"),
        (OutputStream::Stdout, "b"),
        (OutputStream::Stdout, "c"),
    ];
    let mut events: Vec<AgentEvent> = Vec::new();
    for (s, l) in input.iter() {
        events.push(c.line(*s, l.to_string()));
    }
    let mut out = Vec::new();
    let mut err = Vec::new();
    for e in &events {
        match e {
            AgentEvent::Stdout(p) => {
                assert_eq!(e.topic(), "repo-agent-stdout");
                assert_eq!(p.run_id, "run-9");
                assert_eq!(p.agent_id, 3);
                out.push(p.line.clone());
            }
            AgentEvent::Stderr(p) => {
                assert_eq!(e.topic(), "repo-agent-stderr");
                err.push(p.line.clone());
            }
            _ => panic!("unexpected event"),
        }
    }
    assert_eq!(out, vec!["a", "b", "c"]);
    assert_eq!(err, vec!["warn"]);
    let done = c.finish(&mut state, false);
    assert!(matches!(done, AgentEvent::Done(ref p) if !p.success && p.run_id == "run-9"));
    assert!(!state.is_busy());
}

#[test]
fn agent_args_trim_prompt_and_force_by_default() {
    assert_eq!(
        agent_args("  fix bug \n", None),
        vec!["fix bug", "--output-format", "stream-json", "--print", "--force"]
    );
    assert_eq!(
        agent_args("x", Some(false)),
        vec!["x", "--output-format", "stream-json", "--print"]
    );
    assert_eq!(agent_args("x", Some(true)).len(), 5);
}
