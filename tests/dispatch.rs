use symphony::auth::{
    bridge_host, bridge_port, extract_bearer_token, generate_token, token_from_draws, Credentials, Endpoint,
    TokenGuard,
};
use symphony::bridge::{
    dispatch_local, invoke_response, plan_invoke, probe_response, unauthorized_reply, InvokePlan,
};
use symphony::dispatch::{
    decode_command, ArgField, ArgIssue, ArgShape, ArgValue, Command, DispatchError, InvokeArgs, IssueKind,
    Operation,
};

fn field(key: &str, value: ArgValue) -> ArgField {
    ArgField { key: key.to_string(), value }
}

fn text(s: &str) -> ArgValue {
    ArgValue::Text(s.to_string())
}

fn creds(auth: Option<&str>, custom: Option<&str>, query: Option<&str>) -> Credentials {
    Credentials {
        authorization: auth.map(|s| s.to_string()),
        token_header: custom.map(|s| s.to_string()),
        query_token: query.map(|s| s.to_string()),
    }
}

#[test]
fn decode_run_repo_agent() {
    let args = InvokeArgs::Fields(vec![
        field("repoPath", text("/repo")),
        field("prompt", text("fix bug")),
        field("agentId", ArgValue::Int(7)),
        field("runId", text("r1")),
        field("forceApprove", ArgValue::Bool(false)),
    ]);
    match decode_command("run_repo_agent", &args) {
        Ok(Command::RunRepoAgent { repo_path, prompt, agent_id, run_id, force_approve, simulate_mode }) => {
            assert_eq!(repo_path, "/repo");
            assert_eq!(prompt, "fix bug");
            assert_eq!(agent_id, 7);
            assert_eq!(run_id, "r1");
            assert_eq!(force_approve, Some(false));
            assert_eq!(simulate_mode, None);
        }
        _ => panic!("expected run_repo_agent"),
    }
}

#[test]
fn decode_commands_without_args() {
    assert!(matches!(decode_command("list_repos", &InvokeArgs::Absent), Ok(Command::ListRepos)));
    assert!(matches!(decode_command("stop_repo_agent", &InvokeArgs::Malformed), Ok(Command::StopRepoAgent)));
    assert!(matches!(decode_command("list_groups", &InvokeArgs::Fields(vec![])), Ok(Command::ListGroups)));
}

#[test]
fn decode_optional_members() {
    let args = InvokeArgs::Fields(vec![field("path", text("/r")), field("groupId", ArgValue::Null)]);
    assert!(matches!(
        decode_command("add_repo", &args),
        Ok(Command::AddRepo { ref path, group_id: None }) if path == "/r"
    ));
    let args = InvokeArgs::Fields(vec![field("path", text("/r")), field("limit", ArgValue::Int(20))]);
    assert!(matches!(
        decode_command("list_git_history", &args),
        Ok(Command::ListGitHistory { limit: Some(20), .. })
    ));
    let args = InvokeArgs::Fields(vec![field("repoId", ArgValue::Int(3)), field("groupId", ArgValue::Int(9))]);
    assert!(matches!(
        decode_command("move_repo_to_group", &args),
        Ok(Command::MoveRepoToGroup { repo_id: 3, group_id: Some(9) })
    ));
}

#[test]
fn decode_unknown_operation() {
    let r = decode_command("format_disk", &InvokeArgs::Absent);
    match r {
        Err(e @ DispatchError::UnknownOperation(_)) => assert_eq!(e.message(), "Unknown command: format_disk"),
        _ => panic!("expected unknown operation"),
    }
    assert_eq!(Operation::from_name("list_repos"), Some(Operation::ListRepos));
    assert_eq!(Operation::from_name("List_repos"), None);
}

#[test]
fn decode_missing_member() {
    let r = decode_command("create_agent", &InvokeArgs::Fields(vec![field("repoId", ArgValue::Int(1))]));
    match r {
        Err(e @ DispatchError::InvalidArguments(ArgIssue::Field { kind: IssueKind::Missing, .. })) => {
            assert_eq!(e.message(), "Invalid args: missing field `name`")
        }
        _ => panic!("expected a missing member"),
    }
}

#[test]
fn decode_wrong_type_and_range() {
    let r = decode_command("remove_repo", &InvokeArgs::Fields(vec![field("id", text("5"))]));
    match r {
        Err(e @ DispatchError::InvalidArguments(ArgIssue::Field { shape: ArgShape::Int, kind: IssueKind::WrongType, .. })) => {
            assert_eq!(e.message(), "Invalid args: invalid type for field `id`, expected an integer")
        }
        _ => panic!("expected a wrong type"),
    }
    let r = decode_command(
        "list_git_history",
        &InvokeArgs::Fields(vec![field("path", text("/r")), field("limit", ArgValue::Int(-1))]),
    );
    match r {
        Err(e @ DispatchError::InvalidArguments(ArgIssue::Field { kind: IssueKind::OutOfRange, .. })) => {
            assert_eq!(
                e.message(),
                "Invalid args: invalid value for field `limit`, expected a non-negative 32-bit integer or null"
            )
        }
        _ => panic!("expected out of range"),
    }
    let r = decode_command("delete_group", &InvokeArgs::Fields(vec![field("id", ArgValue::Int(1i128 << 70))]));
    assert!(matches!(r, Err(DispatchError::InvalidArguments(ArgIssue::Field { kind: IssueKind::OutOfRange, .. }))));
}

#[test]
fn decode_args_not_an_object() {
    let r = decode_command("pull_repo", &InvokeArgs::Malformed);
    match r {
        Err(e @ DispatchError::InvalidArguments(ArgIssue::NotAnObject)) => {
            assert_eq!(e.message(), "Invalid args: expected an object")
        }
        _ => panic!("expected not an object"),
    }
}

#[test]
fn decode_first_member_wins_and_others_ignored() {
    let args = InvokeArgs::Fields(vec![
        field("extra", ArgValue::Other),
        field("path", text("/a")),
        field("path", text("/b")),
    ]);
    assert!(matches!(decode_command("pull_repo", &args), Ok(Command::PullRepo { ref path }) if path == "/a"));
}

#[test]
fn bearer_token_forms() {
    assert_eq!(extract_bearer_token(&creds(Some("Bearer  abc "), None, None)), Some("abc".to_string()));
    assert_eq!(extract_bearer_token(&creds(Some("Basic abc"), Some(" xyz "), None)), Some("xyz".to_string()));
    assert_eq!(extract_bearer_token(&creds(None, Some("abc"), None)), Some("abc".to_string()));
    assert_eq!(extract_bearer_token(&creds(Some("Bearer tok"), Some("abc"), None)), Some("tok".to_string()));
    assert_eq!(extract_bearer_token(&creds(None, Some("  "), None)), None);
    assert_eq!(extract_bearer_token(&creds(Some("Bearer   "), None, None)), None);
    assert_eq!(extract_bearer_token(&creds(None, None, Some("q"))), None);
}

#[test]
fn guard_admits_exact_token_only() {
    let guard = TokenGuard::with_token("s3cret".to_string());
    assert!(guard.admits(Endpoint::Invoke, &creds(Some("Bearer s3cret"), None, None)));
    assert!(guard.admits(Endpoint::Health, &creds(None, Some("s3cret"), None)));
    assert!(!guard.admits(Endpoint::Invoke, &creds(Some("Bearer s3cre"), None, None)));
    assert!(!guard.admits(Endpoint::Invoke, &creds(None, None, None)));
    // the query parameter counts only for the event stream
    assert!(!guard.admits(Endpoint::Invoke, &creds(None, None, Some("s3cret"))));
    assert!(guard.admits(Endpoint::Events, &creds(None, None, Some("s3cret"))));
    // any one valid form suffices, whatever the others hold
    assert!(guard.admits(Endpoint::Events, &creds(Some("Bearer nope"), None, Some("s3cret"))));
    assert!(guard.admits(Endpoint::Invoke, &creds(Some("Bearer nope"), Some(" s3cret "), None)));
    assert!(guard.admits(Endpoint::Invoke, &creds(Some("Bearer s3cret"), Some("nope"), None)));
    assert!(!guard.admits(Endpoint::Invoke, &creds(Some("Bearer nope"), Some("nope"), Some("s3cret"))));
}

#[test]
fn generated_token_shape() {
    let t = generate_token();
    assert_eq!(t.chars().count(), 40);
    assert!(t.chars().all(|c| c.is_ascii_alphanumeric()));
    assert_ne!(generate_token(), t);
    let (guard, generated) = TokenGuard::from_config(None, t.clone());
    assert!(generated);
    assert_eq!(guard.token_text(), t);
    let (guard, generated) = TokenGuard::from_config(Some("given".to_string()), t.clone());
    assert!(!generated);
    assert_eq!(guard.token_text(), "given");
    let draws: Vec<char> = "abcdefghijABCDEFGHIJ0123456789klmnopqrst".chars().collect();
    assert_eq!(token_from_draws(draws), "abcdefghijABCDEFGHIJ0123456789klmnopqrst");
}

#[test]
fn port_and_host_configuration() {
    assert_eq!(bridge_port(None), 48678);
    assert_eq!(bridge_port(Some("8080")), 8080);
    assert_eq!(bridge_port(Some("+65535")), 65535);
    assert_eq!(bridge_port(Some("65536")), 48678);
    assert_eq!(bridge_port(Some("")), 48678);
    assert_eq!(bridge_port(Some("-1")), 48678);
    assert_eq!(bridge_port(Some("80a")), 48678);
    assert_eq!(bridge_host(None), "127.0.0.1");
    assert_eq!(bridge_host(Some("0.0.0.0".to_string())), "0.0.0.0");
}

#[test]
fn invoke_replies() {
    let (status, r) = invoke_response::<u32>(Ok(Ok(5)));
    assert_eq!(status, 200);
    assert!(r.ok && r.data == Some(5) && r.error.is_none());
    let (status, r) = invoke_response::<u32>(Ok(Err("Agent not found".to_string())));
    assert_eq!(status, 200);
    assert!(!r.ok && r.data.is_none());
    assert_eq!(r.error.as_deref(), Some("Agent not found"));
    let (status, r) = invoke_response::<u32>(Err("panicked".to_string()));
    assert_eq!(status, 500);
    assert_eq!(r.error.as_deref(), Some("Bridge task failed: panicked"));
    let (status, r) = unauthorized_reply::<u32>();
    assert_eq!(status, 401);
    assert!(!r.ok);
    assert_eq!(r.error.as_deref(), Some("Unauthorized"));
}

#[test]
fn probes_require_the_token() {
    let guard = TokenGuard::with_token("t".to_string());
    assert_eq!(probe_response(&guard, Endpoint::Health, &creds(Some("Bearer t"), None, None)), (200, true));
    assert_eq!(probe_response(&guard, Endpoint::VerifyAuth, &creds(None, None, None)), (401, false));
}

#[test]
fn bridge_routes_like_local_path() {
    let guard = TokenGuard::with_token("t".to_string());
    let args = InvokeArgs::Fields(vec![field("agentId", ArgValue::Int(4))]);
    let local = dispatch_local("delete_agent", &args);
    let bridged = plan_invoke(&guard, &creds(Some("Bearer t"), None, None), "delete_agent", &args);
    assert!(matches!(local, Ok(Command::DeleteAgent { agent_id: 4 })));
    assert!(matches!(bridged, InvokePlan::Decoded(Ok(Command::DeleteAgent { agent_id: 4 }))));
    let local = dispatch_local("nope", &args);
    let bridged = plan_invoke(&guard, &creds(Some("Bearer t"), None, None), "nope", &args);
    match (local, bridged) {
        (Err(a), InvokePlan::Decoded(Err(b))) => assert_eq!(a.message(), b.message()),
        _ => panic!("both paths must refuse the same way"),
    }
}

#[test]
fn bridge_refuses_without_token() {
    let guard = TokenGuard::with_token("t".to_string());
    let args = InvokeArgs::Absent;
    assert!(matches!(plan_invoke(&guard, &creds(None, None, None), "stop_repo_agent", &args), InvokePlan::Refused));
    assert!(matches!(
        plan_invoke(&guard, &creds(Some("Bearer x"), None, None), "stop_repo_agent", &args),
        InvokePlan::Refused
    ));
}

#[test]
fn every_operation_name_resolves() {
    let names = [
        "list_repos", "add_repo", "clone_repo", "remove_repo", "open_in_cursor", "open_in_file_manager",
        "get_remote_url", "get_current_branch", "list_local_branches", "get_repo_working_tree_status",
        "switch_branch", "create_local_branch", "delete_local_branch", "get_repo_sync_status", "pull_repo",
        "list_git_history", "get_commit_changes", "list_agents", "create_agent", "delete_agent", "rename_agent",
        "run_repo_agent", "stop_repo_agent", "list_groups", "create_group", "rename_group", "delete_group",
        "move_repo_to_group",
    ];
    let mut seen = Vec::new();
    for n in names {
        let op = Operation::from_name(n).expect("known operation");
        assert!(!seen.contains(&op));
        seen.push(op);
    }
    assert_eq!(seen.len(), 28);
}
