//! The dispatch table: one closed set of operations, each decoded from an
//! operation name and a loosely typed argument object. The local path and the
//! bridge both go through `decode_command`, so both see the same operations.
use crate::text::same_text;
use vstd::prelude::*;

verus! {

/// A JSON value as the argument decoder sees it.
pub enum ArgValue {
    Null,
    Bool(bool),
    Int(i128),
    Text(String),
    /// A float, an array or an object: never a valid argument here.
    Other,
}

/// One member of an argument object.
pub struct ArgField {
    pub key: String,
    pub value: ArgValue,
}

/// The `args` member of an invocation.
pub enum InvokeArgs {
    /// Absent or `null`: decoded as an empty object.
    Absent,
    Fields(Vec<ArgField>),
    /// Present but not an object.
    Malformed,
}

/// What an operation expects of one argument.
#[derive(PartialEq, Eq, Structural, Clone, Copy, Debug)]
pub enum ArgShape {
    Text,
    Int,
    OptInt,
    OptBool,
    OptCount,
}

/// How an argument fails its shape.
#[derive(PartialEq, Eq, Structural, Clone, Copy, Debug)]
pub enum IssueKind {
    Missing,
    WrongType,
    OutOfRange,
}

/// Why an argument object does not fit an operation.
pub enum ArgIssue {
    NotAnObject,
    Field { key: String, shape: ArgShape, kind: IssueKind },
}

/// The mathematical form of an `ArgIssue`.
pub enum IssueView {
    NotAnObject,
    Field(Seq<char>, ArgShape, IssueKind),
}

impl View for ArgIssue {
    type V = IssueView;

    open spec fn view(&self) -> IssueView {
        match self {
            ArgIssue::NotAnObject => IssueView::NotAnObject,
            ArgIssue::Field { key, shape, kind } => IssueView::Field(key@, *shape, *kind),
        }
    }
}

/// Why an invocation could not be turned into a command.
pub enum DispatchError {
    UnknownOperation(String),
    InvalidArguments(ArgIssue),
}

/// The value of the first member named `key`.
pub open spec fn lookup(fields: Seq<ArgField>, key: Seq<char>) -> Option<ArgValue>
    decreases fields.len(),
{
    if fields.len() == 0 {
        None
    } else if fields[0].key@ == key {
        Some(fields[0].value)
    } else {
        lookup(fields.drop_first(), key)
    }
}

pub open spec fn in_i64(n: i128) -> bool {
    i64::MIN <= n && n <= i64::MAX
}

pub open spec fn in_u32(n: i128) -> bool {
    0 <= n && n <= u32::MAX
}

/// How `v` fails `shape`, if it does.
pub open spec fn issue_for(shape: ArgShape, v: Option<ArgValue>) -> Option<IssueKind> {
    match shape {
        ArgShape::Text => match v {
            None => Some(IssueKind::Missing),
            Some(ArgValue::Text(_)) => None,
            Some(_) => Some(IssueKind::WrongType),
        },
        ArgShape::Int => match v {
            None => Some(IssueKind::Missing),
            Some(ArgValue::Int(n)) => if in_i64(n) { None } else { Some(IssueKind::OutOfRange) },
            Some(_) => Some(IssueKind::WrongType),
        },
        ArgShape::OptInt => match v {
            None | Some(ArgValue::Null) => None,
            Some(ArgValue::Int(n)) => if in_i64(n) { None } else { Some(IssueKind::OutOfRange) },
            Some(_) => Some(IssueKind::WrongType),
        },
        ArgShape::OptBool => match v {
            None | Some(ArgValue::Null) | Some(ArgValue::Bool(_)) => None,
            Some(_) => Some(IssueKind::WrongType),
        },
        ArgShape::OptCount => match v {
            None | Some(ArgValue::Null) => None,
            Some(ArgValue::Int(n)) => if in_u32(n) { None } else { Some(IssueKind::OutOfRange) },
            Some(_) => Some(IssueKind::WrongType),
        },
    }
}

/// The issue of member `key` against `shape`, if any.
pub open spec fn field_issue(fields: Seq<ArgField>, key: Seq<char>, shape: ArgShape) -> Option<IssueView> {
    match issue_for(shape, lookup(fields, key)) {
        Some(k) => Some(IssueView::Field(key, shape, k)),
        None => None,
    }
}

/// The first of two issues.
pub open spec fn either(a: Option<IssueView>, b: Option<IssueView>) -> Option<IssueView> {
    if a is Some {
        a
    } else {
        b
    }
}

pub open spec fn text_at(fields: Seq<ArgField>, key: Seq<char>) -> Seq<char> {
    match lookup(fields, key) {
        Some(ArgValue::Text(s)) => s@,
        _ => Seq::empty(),
    }
}

pub open spec fn int_at(fields: Seq<ArgField>, key: Seq<char>) -> i64 {
    match lookup(fields, key) {
        Some(ArgValue::Int(n)) => n as i64,
        _ => 0,
    }
}

pub open spec fn opt_int_at(fields: Seq<ArgField>, key: Seq<char>) -> Option<i64> {
    match lookup(fields, key) {
        Some(ArgValue::Int(n)) => Some(n as i64),
        _ => None,
    }
}

pub open spec fn opt_bool_at(fields: Seq<ArgField>, key: Seq<char>) -> Option<bool> {
    match lookup(fields, key) {
        Some(ArgValue::Bool(b)) => Some(b),
        _ => None,
    }
}

pub open spec fn opt_count_at(fields: Seq<ArgField>, key: Seq<char>) -> Option<u32> {
    match lookup(fields, key) {
        Some(ArgValue::Int(n)) => Some(n as u32),
        _ => None,
    }
}

/// The members of an argument object; an absent object has none.
pub open spec fn fields_of(args: InvokeArgs) -> Seq<ArgField> {
    match args {
        InvokeArgs::Fields(v) => v@,
        _ => Seq::empty(),
    }
}

/// Finds the value of the first member named `key`.
pub fn find_value<'a>(fields: &'a Vec<ArgField>, key: &str) -> (r: Option<&'a ArgValue>)
    ensures
        match r {
            Some(v) => lookup(fields@, key@) == Some(*v),
            None => lookup(fields@, key@) is None,
        },
{
    let mut i: usize = 0;
    assert(fields@.subrange(0, fields@.len() as int) =~= fields@);
    while i < fields.len()
        invariant
            i <= fields@.len(),
            lookup(fields@, key@) == lookup(fields@.subrange(i as int, fields@.len() as int), key@),
        decreases fields.len() - i,
    {
        let ghost rest = fields@.subrange(i as int, fields@.len() as int);
        assert(rest.drop_first() =~= fields@.subrange(i + 1, fields@.len() as int));
        if same_text(fields[i].key.as_str(), key) {
            return Some(&fields[i].value);
        }
        i = i + 1;
    }
    None
}

fn field_error(key: &str, shape: ArgShape, kind: IssueKind) -> (r: ArgIssue)
    ensures
        r@ == IssueView::Field(key@, shape, kind),
{
    ArgIssue::Field { key: String::from_str(key), shape, kind }
}

fn take_text(fields: &Vec<ArgField>, key: &str) -> (r: Result<String, ArgIssue>)
    ensures
        match r {
            Ok(s) => field_issue(fields@, key@, ArgShape::Text) is None && s@ == text_at(fields@, key@),
            Err(e) => field_issue(fields@, key@, ArgShape::Text) == Some(e@),
        },
{
    match find_value(fields, key) {
        Some(ArgValue::Text(s)) => Ok(s.clone()),
        Some(_) => Err(field_error(key, ArgShape::Text, IssueKind::WrongType)),
        None => Err(field_error(key, ArgShape::Text, IssueKind::Missing)),
    }
}

fn take_int(fields: &Vec<ArgField>, key: &str) -> (r: Result<i64, ArgIssue>)
    ensures
        match r {
            Ok(n) => field_issue(fields@, key@, ArgShape::Int) is None && n == int_at(fields@, key@),
            Err(e) => field_issue(fields@, key@, ArgShape::Int) == Some(e@),
        },
{
    match find_value(fields, key) {
        Some(ArgValue::Int(n)) => {
            if i64::MIN as i128 <= *n && *n <= i64::MAX as i128 {
                Ok(*n as i64)
            } else {
                Err(field_error(key, ArgShape::Int, IssueKind::OutOfRange))
            }
        },
        Some(_) => Err(field_error(key, ArgShape::Int, IssueKind::WrongType)),
        None => Err(field_error(key, ArgShape::Int, IssueKind::Missing)),
    }
}

fn take_opt_int(fields: &Vec<ArgField>, key: &str) -> (r: Result<Option<i64>, ArgIssue>)
    ensures
        match r {
            Ok(n) => field_issue(fields@, key@, ArgShape::OptInt) is None && n == opt_int_at(fields@, key@),
            Err(e) => field_issue(fields@, key@, ArgShape::OptInt) == Some(e@),
        },
{
    match find_value(fields, key) {
        Some(ArgValue::Int(n)) => {
            if i64::MIN as i128 <= *n && *n <= i64::MAX as i128 {
                Ok(Some(*n as i64))
            } else {
                Err(field_error(key, ArgShape::OptInt, IssueKind::OutOfRange))
            }
        },
        Some(ArgValue::Null) | None => Ok(None),
        Some(_) => Err(field_error(key, ArgShape::OptInt, IssueKind::WrongType)),
    }
}

fn take_opt_bool(fields: &Vec<ArgField>, key: &str) -> (r: Result<Option<bool>, ArgIssue>)
    ensures
        match r {
            Ok(b) => field_issue(fields@, key@, ArgShape::OptBool) is None && b == opt_bool_at(fields@, key@),
            Err(e) => field_issue(fields@, key@, ArgShape::OptBool) == Some(e@),
        },
{
    match find_value(fields, key) {
        Some(ArgValue::Bool(b)) => Ok(Some(*b)),
        Some(ArgValue::Null) | None => Ok(None),
        Some(_) => Err(field_error(key, ArgShape::OptBool, IssueKind::WrongType)),
    }
}

fn take_opt_count(fields: &Vec<ArgField>, key: &str) -> (r: Result<Option<u32>, ArgIssue>)
    ensures
        match r {
            Ok(n) => field_issue(fields@, key@, ArgShape::OptCount) is None && n == opt_count_at(fields@, key@),
            Err(e) => field_issue(fields@, key@, ArgShape::OptCount) == Some(e@),
        },
{
    match find_value(fields, key) {
        Some(ArgValue::Int(n)) => {
            if 0 <= *n && *n <= u32::MAX as i128 {
                Ok(Some(*n as u32))
            } else {
                Err(field_error(key, ArgShape::OptCount, IssueKind::OutOfRange))
            }
        },
        Some(ArgValue::Null) | None => Ok(None),
        Some(_) => Err(field_error(key, ArgShape::OptCount, IssueKind::WrongType)),
    }
}

/// The operations that the dispatch table offers.
#[derive(PartialEq, Eq, Structural, Clone, Copy, Debug)]
pub enum Operation {
    ListRepos,
    AddRepo,
    CloneRepo,
    RemoveRepo,
    OpenInCursor,
    OpenInFileManager,
    GetRemoteUrl,
    GetCurrentBranch,
    ListLocalBranches,
    GetRepoWorkingTreeStatus,
    SwitchBranch,
    CreateLocalBranch,
    DeleteLocalBranch,
    GetRepoSyncStatus,
    PullRepo,
    ListGitHistory,
    GetCommitChanges,
    ListAgents,
    CreateAgent,
    DeleteAgent,
    RenameAgent,
    RunRepoAgent,
    StopRepoAgent,
    ListGroups,
    CreateGroup,
    RenameGroup,
    DeleteGroup,
    MoveRepoToGroup,
}

/// The operation called `name`, if there is one.
pub open spec fn operation_named(name: Seq<char>) -> Option<Operation> {
    if name == "list_repos"@ {
        Some(Operation::ListRepos)
    } else if name == "add_repo"@ {
        Some(Operation::AddRepo)
    } else if name == "clone_repo"@ {
        Some(Operation::CloneRepo)
    } else if name == "remove_repo"@ {
        Some(Operation::RemoveRepo)
    } else if name == "open_in_cursor"@ {
        Some(Operation::OpenInCursor)
    } else if name == "open_in_file_manager"@ {
        Some(Operation::OpenInFileManager)
    } else if name == "get_remote_url"@ {
        Some(Operation::GetRemoteUrl)
    } else if name == "get_current_branch"@ {
        Some(Operation::GetCurrentBranch)
    } else if name == "list_local_branches"@ {
        Some(Operation::ListLocalBranches)
    } else if name == "get_repo_working_tree_status"@ {
        Some(Operation::GetRepoWorkingTreeStatus)
    } else if name == "switch_branch"@ {
        Some(Operation::SwitchBranch)
    } else if name == "create_local_branch"@ {
        Some(Operation::CreateLocalBranch)
    } else if name == "delete_local_branch"@ {
        Some(Operation::DeleteLocalBranch)
    } else if name == "get_repo_sync_status"@ {
        Some(Operation::GetRepoSyncStatus)
    } else if name == "pull_repo"@ {
        Some(Operation::PullRepo)
    } else if name == "list_git_history"@ {
        Some(Operation::ListGitHistory)
    } else if name == "get_commit_changes"@ {
        Some(Operation::GetCommitChanges)
    } else if name == "list_agents"@ {
        Some(Operation::ListAgents)
    } else if name == "create_agent"@ {
        Some(Operation::CreateAgent)
    } else if name == "delete_agent"@ {
        Some(Operation::DeleteAgent)
    } else if name == "rename_agent"@ {
        Some(Operation::RenameAgent)
    } else if name == "run_repo_agent"@ {
        Some(Operation::RunRepoAgent)
    } else if name == "stop_repo_agent"@ {
        Some(Operation::StopRepoAgent)
    } else if name == "list_groups"@ {
        Some(Operation::ListGroups)
    } else if name == "create_group"@ {
        Some(Operation::CreateGroup)
    } else if name == "rename_group"@ {
        Some(Operation::RenameGroup)
    } else if name == "delete_group"@ {
        Some(Operation::DeleteGroup)
    } else if name == "move_repo_to_group"@ {
        Some(Operation::MoveRepoToGroup)
    } else {
        None
    }
}

impl Operation {
    /// Looks an operation up by its name.
    pub fn from_name(name: &str) -> (r: Option<Operation>)
        ensures
            r == operation_named(name@),
    {
        if same_text(name, "list_repos") {
            Some(Operation::ListRepos)
        } else if same_text(name, "add_repo") {
            Some(Operation::AddRepo)
        } else if same_text(name, "clone_repo") {
            Some(Operation::CloneRepo)
        } else if same_text(name, "remove_repo") {
            Some(Operation::RemoveRepo)
        } else if same_text(name, "open_in_cursor") {
            Some(Operation::OpenInCursor)
        } else if same_text(name, "open_in_file_manager") {
            Some(Operation::OpenInFileManager)
        } else if same_text(name, "get_remote_url") {
            Some(Operation::GetRemoteUrl)
        } else if same_text(name, "get_current_branch") {
            Some(Operation::GetCurrentBranch)
        } else if same_text(name, "list_local_branches") {
            Some(Operation::ListLocalBranches)
        } else if same_text(name, "get_repo_working_tree_status") {
            Some(Operation::GetRepoWorkingTreeStatus)
        } else if same_text(name, "switch_branch") {
            Some(Operation::SwitchBranch)
        } else if same_text(name, "create_local_branch") {
            Some(Operation::CreateLocalBranch)
        } else if same_text(name, "delete_local_branch") {
            Some(Operation::DeleteLocalBranch)
        } else if same_text(name, "get_repo_sync_status") {
            Some(Operation::GetRepoSyncStatus)
        } else if same_text(name, "pull_repo") {
            Some(Operation::PullRepo)
        } else if same_text(name, "list_git_history") {
            Some(Operation::ListGitHistory)
        } else if same_text(name, "get_commit_changes") {
            Some(Operation::GetCommitChanges)
        } else if same_text(name, "list_agents") {
            Some(Operation::ListAgents)
        } else if same_text(name, "create_agent") {
            Some(Operation::CreateAgent)
        } else if same_text(name, "delete_agent") {
            Some(Operation::DeleteAgent)
        } else if same_text(name, "rename_agent") {
            Some(Operation::RenameAgent)
        } else if same_text(name, "run_repo_agent") {
            Some(Operation::RunRepoAgent)
        } else if same_text(name, "stop_repo_agent") {
            Some(Operation::StopRepoAgent)
        } else if same_text(name, "list_groups") {
            Some(Operation::ListGroups)
        } else if same_text(name, "create_group") {
            Some(Operation::CreateGroup)
        } else if same_text(name, "rename_group") {
            Some(Operation::RenameGroup)
        } else if same_text(name, "delete_group") {
            Some(Operation::DeleteGroup)
        } else if same_text(name, "move_repo_to_group") {
            Some(Operation::MoveRepoToGroup)
        } else {
            None
        }
    }
}

/// A decoded invocation: an operation with arguments of the types it needs.
pub enum Command {
    ListRepos,
    AddRepo { path: String, group_id: Option<i64> },
    CloneRepo { url: String, destination_parent: String, group_id: Option<i64> },
    RemoveRepo { id: i64 },
    OpenInCursor { path: String },
    OpenInFileManager { path: String },
    GetRemoteUrl { path: String },
    GetCurrentBranch { path: String },
    ListLocalBranches { path: String },
    GetRepoWorkingTreeStatus { path: String },
    SwitchBranch { path: String, target_branch: String, move_changes: Option<bool> },
    CreateLocalBranch { path: String, name: String },
    DeleteLocalBranch { path: String, branch_name: String, force: Option<bool> },
    GetRepoSyncStatus { path: String, fetch: Option<bool> },
    PullRepo { path: String },
    ListGitHistory { path: String, limit: Option<u32> },
    GetCommitChanges { path: String, commit: String },
    ListAgents { repo_id: i64 },
    CreateAgent { repo_id: i64, name: String },
    DeleteAgent { agent_id: i64 },
    RenameAgent { agent_id: i64, name: String },
    RunRepoAgent { repo_path: String, prompt: String, agent_id: i64, run_id: String, force_approve: Option<bool>, simulate_mode: Option<bool> },
    StopRepoAgent,
    ListGroups,
    CreateGroup { name: String },
    RenameGroup { id: i64, name: String },
    DeleteGroup { id: i64 },
    MoveRepoToGroup { repo_id: i64, group_id: Option<i64> },
}

/// Whether two commands invoke the same operation with the same arguments.
pub open spec fn same_command(a: Command, b: Command) -> bool {
    match (a, b) {
        (Command::ListRepos, Command::ListRepos) => true,
        (Command::AddRepo { path: a_path, group_id: a_group_id }, Command::AddRepo { path: b_path, group_id: b_group_id }) => a_path@ == b_path@
            && a_group_id == b_group_id,
        (Command::CloneRepo { url: a_url, destination_parent: a_destination_parent, group_id: a_group_id }, Command::CloneRepo { url: b_url, destination_parent: b_destination_parent, group_id: b_group_id }) => a_url@ == b_url@
            && a_destination_parent@ == b_destination_parent@
            && a_group_id == b_group_id,
        (Command::RemoveRepo { id: a_id }, Command::RemoveRepo { id: b_id }) => a_id == b_id,
        (Command::OpenInCursor { path: a_path }, Command::OpenInCursor { path: b_path }) => a_path@ == b_path@,
        (Command::OpenInFileManager { path: a_path }, Command::OpenInFileManager { path: b_path }) => a_path@ == b_path@,
        (Command::GetRemoteUrl { path: a_path }, Command::GetRemoteUrl { path: b_path }) => a_path@ == b_path@,
        (Command::GetCurrentBranch { path: a_path }, Command::GetCurrentBranch { path: b_path }) => a_path@ == b_path@,
        (Command::ListLocalBranches { path: a_path }, Command::ListLocalBranches { path: b_path }) => a_path@ == b_path@,
        (Command::GetRepoWorkingTreeStatus { path: a_path }, Command::GetRepoWorkingTreeStatus { path: b_path }) => a_path@ == b_path@,
        (Command::SwitchBranch { path: a_path, target_branch: a_target_branch, move_changes: a_move_changes }, Command::SwitchBranch { path: b_path, target_branch: b_target_branch, move_changes: b_move_changes }) => a_path@ == b_path@
            && a_target_branch@ == b_target_branch@
            && a_move_changes == b_move_changes,
        (Command::CreateLocalBranch { path: a_path, name: a_name }, Command::CreateLocalBranch { path: b_path, name: b_name }) => a_path@ == b_path@
            && a_name@ == b_name@,
        (Command::DeleteLocalBranch { path: a_path, branch_name: a_branch_name, force: a_force }, Command::DeleteLocalBranch { path: b_path, branch_name: b_branch_name, force: b_force }) => a_path@ == b_path@
            && a_branch_name@ == b_branch_name@
            && a_force == b_force,
        (Command::GetRepoSyncStatus { path: a_path, fetch: a_fetch }, Command::GetRepoSyncStatus { path: b_path, fetch: b_fetch }) => a_path@ == b_path@
            && a_fetch == b_fetch,
        (Command::PullRepo { path: a_path }, Command::PullRepo { path: b_path }) => a_path@ == b_path@,
        (Command::ListGitHistory { path: a_path, limit: a_limit }, Command::ListGitHistory { path: b_path, limit: b_limit }) => a_path@ == b_path@
            && a_limit == b_limit,
        (Command::GetCommitChanges { path: a_path, commit: a_commit }, Command::GetCommitChanges { path: b_path, commit: b_commit }) => a_path@ == b_path@
            && a_commit@ == b_commit@,
        (Command::ListAgents { repo_id: a_repo_id }, Command::ListAgents { repo_id: b_repo_id }) => a_repo_id == b_repo_id,
        (Command::CreateAgent { repo_id: a_repo_id, name: a_name }, Command::CreateAgent { repo_id: b_repo_id, name: b_name }) => a_repo_id == b_repo_id
            && a_name@ == b_name@,
        (Command::DeleteAgent { agent_id: a_agent_id }, Command::DeleteAgent { agent_id: b_agent_id }) => a_agent_id == b_agent_id,
        (Command::RenameAgent { agent_id: a_agent_id, name: a_name }, Command::RenameAgent { agent_id: b_agent_id, name: b_name }) => a_agent_id == b_agent_id
            && a_name@ == b_name@,
        (Command::RunRepoAgent { repo_path: a_repo_path, prompt: a_prompt, agent_id: a_agent_id, run_id: a_run_id, force_approve: a_force_approve, simulate_mode: a_simulate_mode }, Command::RunRepoAgent { repo_path: b_repo_path, prompt: b_prompt, agent_id: b_agent_id, run_id: b_run_id, force_approve: b_force_approve, simulate_mode: b_simulate_mode }) => a_repo_path@ == b_repo_path@
            && a_prompt@ == b_prompt@
            && a_agent_id == b_agent_id
            && a_run_id@ == b_run_id@
            && a_force_approve == b_force_approve
            && a_simulate_mode == b_simulate_mode,
        (Command::StopRepoAgent, Command::StopRepoAgent) => true,
        (Command::ListGroups, Command::ListGroups) => true,
        (Command::CreateGroup { name: a_name }, Command::CreateGroup { name: b_name }) => a_name@ == b_name@,
        (Command::RenameGroup { id: a_id, name: a_name }, Command::RenameGroup { id: b_id, name: b_name }) => a_id == b_id
            && a_name@ == b_name@,
        (Command::DeleteGroup { id: a_id }, Command::DeleteGroup { id: b_id }) => a_id == b_id,
        (Command::MoveRepoToGroup { repo_id: a_repo_id, group_id: a_group_id }, Command::MoveRepoToGroup { repo_id: b_repo_id, group_id: b_group_id }) => a_repo_id == b_repo_id
            && a_group_id == b_group_id,
        _ => false,
    }
}

/// The operation that a command invokes.
pub open spec fn operation_of(c: Command) -> Operation {
    match c {
        Command::ListRepos => Operation::ListRepos,
        Command::AddRepo { .. } => Operation::AddRepo,
        Command::CloneRepo { .. } => Operation::CloneRepo,
        Command::RemoveRepo { .. } => Operation::RemoveRepo,
        Command::OpenInCursor { .. } => Operation::OpenInCursor,
        Command::OpenInFileManager { .. } => Operation::OpenInFileManager,
        Command::GetRemoteUrl { .. } => Operation::GetRemoteUrl,
        Command::GetCurrentBranch { .. } => Operation::GetCurrentBranch,
        Command::ListLocalBranches { .. } => Operation::ListLocalBranches,
        Command::GetRepoWorkingTreeStatus { .. } => Operation::GetRepoWorkingTreeStatus,
        Command::SwitchBranch { .. } => Operation::SwitchBranch,
        Command::CreateLocalBranch { .. } => Operation::CreateLocalBranch,
        Command::DeleteLocalBranch { .. } => Operation::DeleteLocalBranch,
        Command::GetRepoSyncStatus { .. } => Operation::GetRepoSyncStatus,
        Command::PullRepo { .. } => Operation::PullRepo,
        Command::ListGitHistory { .. } => Operation::ListGitHistory,
        Command::GetCommitChanges { .. } => Operation::GetCommitChanges,
        Command::ListAgents { .. } => Operation::ListAgents,
        Command::CreateAgent { .. } => Operation::CreateAgent,
        Command::DeleteAgent { .. } => Operation::DeleteAgent,
        Command::RenameAgent { .. } => Operation::RenameAgent,
        Command::RunRepoAgent { .. } => Operation::RunRepoAgent,
        Command::StopRepoAgent => Operation::StopRepoAgent,
        Command::ListGroups => Operation::ListGroups,
        Command::CreateGroup { .. } => Operation::CreateGroup,
        Command::RenameGroup { .. } => Operation::RenameGroup,
        Command::DeleteGroup { .. } => Operation::DeleteGroup,
        Command::MoveRepoToGroup { .. } => Operation::MoveRepoToGroup,
    }
}

/// The first argument issue of `op` on `fields`, in the order the operation
/// declares its arguments.
pub open spec fn fields_issue(op: Operation, fields: Seq<ArgField>) -> Option<IssueView> {
    match op {
        Operation::ListRepos => None,
        Operation::AddRepo => either(field_issue(fields, "path"@, ArgShape::Text), field_issue(fields, "groupId"@, ArgShape::OptInt)),
        Operation::CloneRepo => either(field_issue(fields, "url"@, ArgShape::Text), either(field_issue(fields, "destinationParent"@, ArgShape::Text), field_issue(fields, "groupId"@, ArgShape::OptInt))),
        Operation::RemoveRepo => field_issue(fields, "id"@, ArgShape::Int),
        Operation::OpenInCursor => field_issue(fields, "path"@, ArgShape::Text),
        Operation::OpenInFileManager => field_issue(fields, "path"@, ArgShape::Text),
        Operation::GetRemoteUrl => field_issue(fields, "path"@, ArgShape::Text),
        Operation::GetCurrentBranch => field_issue(fields, "path"@, ArgShape::Text),
        Operation::ListLocalBranches => field_issue(fields, "path"@, ArgShape::Text),
        Operation::GetRepoWorkingTreeStatus => field_issue(fields, "path"@, ArgShape::Text),
        Operation::SwitchBranch => either(field_issue(fields, "path"@, ArgShape::Text), either(field_issue(fields, "targetBranch"@, ArgShape::Text), field_issue(fields, "moveChanges"@, ArgShape::OptBool))),
        Operation::CreateLocalBranch => either(field_issue(fields, "path"@, ArgShape::Text), field_issue(fields, "name"@, ArgShape::Text)),
        Operation::DeleteLocalBranch => either(field_issue(fields, "path"@, ArgShape::Text), either(field_issue(fields, "branchName"@, ArgShape::Text), field_issue(fields, "force"@, ArgShape::OptBool))),
        Operation::GetRepoSyncStatus => either(field_issue(fields, "path"@, ArgShape::Text), field_issue(fields, "fetch"@, ArgShape::OptBool)),
        Operation::PullRepo => field_issue(fields, "path"@, ArgShape::Text),
        Operation::ListGitHistory => either(field_issue(fields, "path"@, ArgShape::Text), field_issue(fields, "limit"@, ArgShape::OptCount)),
        Operation::GetCommitChanges => either(field_issue(fields, "path"@, ArgShape::Text), field_issue(fields, "commit"@, ArgShape::Text)),
        Operation::ListAgents => field_issue(fields, "repoId"@, ArgShape::Int),
        Operation::CreateAgent => either(field_issue(fields, "repoId"@, ArgShape::Int), field_issue(fields, "name"@, ArgShape::Text)),
        Operation::DeleteAgent => field_issue(fields, "agentId"@, ArgShape::Int),
        Operation::RenameAgent => either(field_issue(fields, "agentId"@, ArgShape::Int), field_issue(fields, "name"@, ArgShape::Text)),
        Operation::RunRepoAgent => either(field_issue(fields, "repoPath"@, ArgShape::Text), either(field_issue(fields, "prompt"@, ArgShape::Text), either(field_issue(fields, "agentId"@, ArgShape::Int), either(field_issue(fields, "runId"@, ArgShape::Text), either(field_issue(fields, "forceApprove"@, ArgShape::OptBool), field_issue(fields, "simulateMode"@, ArgShape::OptBool)))))),
        Operation::StopRepoAgent => None,
        Operation::ListGroups => None,
        Operation::CreateGroup => field_issue(fields, "name"@, ArgShape::Text),
        Operation::RenameGroup => either(field_issue(fields, "id"@, ArgShape::Int), field_issue(fields, "name"@, ArgShape::Text)),
        Operation::DeleteGroup => field_issue(fields, "id"@, ArgShape::Int),
        Operation::MoveRepoToGroup => either(field_issue(fields, "repoId"@, ArgShape::Int), field_issue(fields, "groupId"@, ArgShape::OptInt)),
    }
}

/// Whether `op` reads any argument.
pub open spec fn takes_args(op: Operation) -> bool {
    !(op == Operation::ListRepos || op == Operation::StopRepoAgent || op == Operation::ListGroups)
}

/// The issue of `op` on the whole `args` member, if any.
pub open spec fn args_issue(op: Operation, args: InvokeArgs) -> Option<IssueView> {
    if args is Malformed && takes_args(op) {
        Some(IssueView::NotAnObject)
    } else {
        fields_issue(op, fields_of(args))
    }
}

/// Whether each argument of `c` is the value given for it in `fields`.
pub open spec fn carries_args(c: Command, fields: Seq<ArgField>) -> bool {
    match c {
        Command::ListRepos => true,
        Command::AddRepo { path, group_id } => path@ == text_at(fields, "path"@)
            && group_id == opt_int_at(fields, "groupId"@),
        Command::CloneRepo { url, destination_parent, group_id } => url@ == text_at(fields, "url"@)
            && destination_parent@ == text_at(fields, "destinationParent"@)
            && group_id == opt_int_at(fields, "groupId"@),
        Command::RemoveRepo { id } => id == int_at(fields, "id"@),
        Command::OpenInCursor { path } => path@ == text_at(fields, "path"@),
        Command::OpenInFileManager { path } => path@ == text_at(fields, "path"@),
        Command::GetRemoteUrl { path } => path@ == text_at(fields, "path"@),
        Command::GetCurrentBranch { path } => path@ == text_at(fields, "path"@),
        Command::ListLocalBranches { path } => path@ == text_at(fields, "path"@),
        Command::GetRepoWorkingTreeStatus { path } => path@ == text_at(fields, "path"@),
        Command::SwitchBranch { path, target_branch, move_changes } => path@ == text_at(fields, "path"@)
            && target_branch@ == text_at(fields, "targetBranch"@)
            && move_changes == opt_bool_at(fields, "moveChanges"@),
        Command::CreateLocalBranch { path, name } => path@ == text_at(fields, "path"@)
            && name@ == text_at(fields, "name"@),
        Command::DeleteLocalBranch { path, branch_name, force } => path@ == text_at(fields, "path"@)
            && branch_name@ == text_at(fields, "branchName"@)
            && force == opt_bool_at(fields, "force"@),
        Command::GetRepoSyncStatus { path, fetch } => path@ == text_at(fields, "path"@)
            && fetch == opt_bool_at(fields, "fetch"@),
        Command::PullRepo { path } => path@ == text_at(fields, "path"@),
        Command::ListGitHistory { path, limit } => path@ == text_at(fields, "path"@)
            && limit == opt_count_at(fields, "limit"@),
        Command::GetCommitChanges { path, commit } => path@ == text_at(fields, "path"@)
            && commit@ == text_at(fields, "commit"@),
        Command::ListAgents { repo_id } => repo_id == int_at(fields, "repoId"@),
        Command::CreateAgent { repo_id, name } => repo_id == int_at(fields, "repoId"@)
            && name@ == text_at(fields, "name"@),
        Command::DeleteAgent { agent_id } => agent_id == int_at(fields, "agentId"@),
        Command::RenameAgent { agent_id, name } => agent_id == int_at(fields, "agentId"@)
            && name@ == text_at(fields, "name"@),
        Command::RunRepoAgent { repo_path, prompt, agent_id, run_id, force_approve, simulate_mode } => repo_path@ == text_at(fields, "repoPath"@)
            && prompt@ == text_at(fields, "prompt"@)
            && agent_id == int_at(fields, "agentId"@)
            && run_id@ == text_at(fields, "runId"@)
            && force_approve == opt_bool_at(fields, "forceApprove"@)
            && simulate_mode == opt_bool_at(fields, "simulateMode"@),
        Command::StopRepoAgent => true,
        Command::ListGroups => true,
        Command::CreateGroup { name } => name@ == text_at(fields, "name"@),
        Command::RenameGroup { id, name } => id == int_at(fields, "id"@)
            && name@ == text_at(fields, "name"@),
        Command::DeleteGroup { id } => id == int_at(fields, "id"@),
        Command::MoveRepoToGroup { repo_id, group_id } => repo_id == int_at(fields, "repoId"@)
            && group_id == opt_int_at(fields, "groupId"@),
    }
}

fn decode_fields(op: Operation, fields: &Vec<ArgField>) -> (r: Result<Command, ArgIssue>)
    ensures
        match r {
            Ok(c) => operation_of(c) == op && fields_issue(op, fields@) is None && carries_args(c, fields@),
            Err(e) => fields_issue(op, fields@) == Some(e@),
        },
{
    match op {
        Operation::ListRepos => Ok(Command::ListRepos),
        Operation::AddRepo => {
            let path = take_text(fields, "path")?;
            let group_id = take_opt_int(fields, "groupId")?;
            Ok(Command::AddRepo { path, group_id })
        },
        Operation::CloneRepo => {
            let url = take_text(fields, "url")?;
            let destination_parent = take_text(fields, "destinationParent")?;
            let group_id = take_opt_int(fields, "groupId")?;
            Ok(Command::CloneRepo { url, destination_parent, group_id })
        },
        Operation::RemoveRepo => {
            let id = take_int(fields, "id")?;
            Ok(Command::RemoveRepo { id })
        },
        Operation::OpenInCursor => {
            let path = take_text(fields, "path")?;
            Ok(Command::OpenInCursor { path })
        },
        Operation::OpenInFileManager => {
            let path = take_text(fields, "path")?;
            Ok(Command::OpenInFileManager { path })
        },
        Operation::GetRemoteUrl => {
            let path = take_text(fields, "path")?;
            Ok(Command::GetRemoteUrl { path })
        },
        Operation::GetCurrentBranch => {
            let path = take_text(fields, "path")?;
            Ok(Command::GetCurrentBranch { path })
        },
        Operation::ListLocalBranches => {
            let path = take_text(fields, "path")?;
            Ok(Command::ListLocalBranches { path })
        },
        Operation::GetRepoWorkingTreeStatus => {
            let path = take_text(fields, "path")?;
            Ok(Command::GetRepoWorkingTreeStatus { path })
        },
        Operation::SwitchBranch => {
            let path = take_text(fields, "path")?;
            let target_branch = take_text(fields, "targetBranch")?;
            let move_changes = take_opt_bool(fields, "moveChanges")?;
            Ok(Command::SwitchBranch { path, target_branch, move_changes })
        },
        Operation::CreateLocalBranch => {
            let path = take_text(fields, "path")?;
            let name = take_text(fields, "name")?;
            Ok(Command::CreateLocalBranch { path, name })
        },
        Operation::DeleteLocalBranch => {
            let path = take_text(fields, "path")?;
            let branch_name = take_text(fields, "branchName")?;
            let force = take_opt_bool(fields, "force")?;
            Ok(Command::DeleteLocalBranch { path, branch_name, force })
        },
        Operation::GetRepoSyncStatus => {
            let path = take_text(fields, "path")?;
            let fetch = take_opt_bool(fields, "fetch")?;
            Ok(Command::GetRepoSyncStatus { path, fetch })
        },
        Operation::PullRepo => {
            let path = take_text(fields, "path")?;
            Ok(Command::PullRepo { path })
        },
        Operation::ListGitHistory => {
            let path = take_text(fields, "path")?;
            let limit = take_opt_count(fields, "limit")?;
            Ok(Command::ListGitHistory { path, limit })
        },
        Operation::GetCommitChanges => {
            let path = take_text(fields, "path")?;
            let commit = take_text(fields, "commit")?;
            Ok(Command::GetCommitChanges { path, commit })
        },
        Operation::ListAgents => {
            let repo_id = take_int(fields, "repoId")?;
            Ok(Command::ListAgents { repo_id })
        },
        Operation::CreateAgent => {
            let repo_id = take_int(fields, "repoId")?;
            let name = take_text(fields, "name")?;
            Ok(Command::CreateAgent { repo_id, name })
        },
        Operation::DeleteAgent => {
            let agent_id = take_int(fields, "agentId")?;
            Ok(Command::DeleteAgent { agent_id })
        },
        Operation::RenameAgent => {
            let agent_id = take_int(fields, "agentId")?;
            let name = take_text(fields, "name")?;
            Ok(Command::RenameAgent { agent_id, name })
        },
        Operation::RunRepoAgent => {
            let repo_path = take_text(fields, "repoPath")?;
            let prompt = take_text(fields, "prompt")?;
            let agent_id = take_int(fields, "agentId")?;
            let run_id = take_text(fields, "runId")?;
            let force_approve = take_opt_bool(fields, "forceApprove")?;
            let simulate_mode = take_opt_bool(fields, "simulateMode")?;
            Ok(Command::RunRepoAgent { repo_path, prompt, agent_id, run_id, force_approve, simulate_mode })
        },
        Operation::StopRepoAgent => Ok(Command::StopRepoAgent),
        Operation::ListGroups => Ok(Command::ListGroups),
        Operation::CreateGroup => {
            let name = take_text(fields, "name")?;
            Ok(Command::CreateGroup { name })
        },
        Operation::RenameGroup => {
            let id = take_int(fields, "id")?;
            let name = take_text(fields, "name")?;
            Ok(Command::RenameGroup { id, name })
        },
        Operation::DeleteGroup => {
            let id = take_int(fields, "id")?;
            Ok(Command::DeleteGroup { id })
        },
        Operation::MoveRepoToGroup => {
            let repo_id = take_int(fields, "repoId")?;
            let group_id = take_opt_int(fields, "groupId")?;
            Ok(Command::MoveRepoToGroup { repo_id, group_id })
        },
    }
}

/// Whether `r` is what decoding operation `name` with `args` gives.
pub open spec fn decodes_to(r: Result<Command, DispatchError>, name: Seq<char>, args: InvokeArgs) -> bool {
    match r {
        Ok(c) => operation_named(name) == Some(operation_of(c)) && args_issue(operation_of(c), args) is None
            && carries_args(c, fields_of(args)),
        Err(DispatchError::UnknownOperation(n)) => operation_named(name) is None && n@ == name,
        Err(DispatchError::InvalidArguments(e)) => operation_named(name) is Some && args_issue(
            operation_named(name)->0,
            args,
        ) == Some(e@),
    }
}

/// Decodes an invocation into a command. Fails with `UnknownOperation` when no
/// operation has that name, and with `InvalidArguments` carrying the first
/// argument that does not fit when the arguments do not match its shape.
pub fn decode_command(name: &str, args: &InvokeArgs) -> (r: Result<Command, DispatchError>)
    ensures
        decodes_to(r, name@, *args),
{
    let op = match Operation::from_name(name) {
        Some(op) => op,
        None => {
            return Err(DispatchError::UnknownOperation(String::from_str(name)));
        },
    };
    let decoded = match args {
        InvokeArgs::Fields(fields) => decode_fields(op, fields),
        InvokeArgs::Absent => {
            let empty: Vec<ArgField> = Vec::new();
            decode_fields(op, &empty)
        },
        InvokeArgs::Malformed => {
            if op_takes_args(op) {
                Err(ArgIssue::NotAnObject)
            } else {
                let empty: Vec<ArgField> = Vec::new();
                decode_fields(op, &empty)
            }
        },
    };
    match decoded {
        Ok(c) => Ok(c),
        Err(e) => Err(DispatchError::InvalidArguments(e)),
    }
}

fn op_takes_args(op: Operation) -> (r: bool)
    ensures
        r == takes_args(op),
{
    !(op == Operation::ListRepos || op == Operation::StopRepoAgent || op == Operation::ListGroups)
}


/// What an argument shape expects, in words.
pub open spec fn shape_text(shape: ArgShape) -> Seq<char> {
    match shape {
        ArgShape::Text => "a string"@,
        ArgShape::Int => "an integer"@,
        ArgShape::OptInt => "an integer or null"@,
        ArgShape::OptBool => "a boolean or null"@,
        ArgShape::OptCount => "a non-negative 32-bit integer or null"@,
    }
}

/// The text of an argument issue.
pub open spec fn issue_text(i: IssueView) -> Seq<char> {
    match i {
        IssueView::NotAnObject => "Invalid args: expected an object"@,
        IssueView::Field(key, shape, IssueKind::Missing) => "Invalid args: missing field `"@ + key + "`"@,
        IssueView::Field(key, shape, IssueKind::WrongType) => "Invalid args: invalid type for field `"@ + key
            + "`, expected "@ + shape_text(shape),
        IssueView::Field(key, shape, IssueKind::OutOfRange) => "Invalid args: invalid value for field `"@ + key
            + "`, expected "@ + shape_text(shape),
    }
}

/// The text of a dispatch error.
pub open spec fn dispatch_error_text(e: DispatchError) -> Seq<char> {
    match e {
        DispatchError::UnknownOperation(n) => "Unknown command: "@ + n@,
        DispatchError::InvalidArguments(i) => issue_text(i@),
    }
}

fn shape_words(shape: ArgShape) -> (r: &'static str)
    ensures
        r@ == shape_text(shape),
{
    match shape {
        ArgShape::Text => "a string",
        ArgShape::Int => "an integer",
        ArgShape::OptInt => "an integer or null",
        ArgShape::OptBool => "a boolean or null",
        ArgShape::OptCount => "a non-negative 32-bit integer or null",
    }
}

impl DispatchError {
    /// The text of the error, as callers see it.
    pub fn message(&self) -> (r: String)
        ensures
            r@ == dispatch_error_text(*self),
    {
        match self {
            DispatchError::UnknownOperation(n) => String::from_str("Unknown command: ").concat(n.as_str()),
            DispatchError::InvalidArguments(ArgIssue::NotAnObject) => String::from_str(
                "Invalid args: expected an object",
            ),
            DispatchError::InvalidArguments(ArgIssue::Field { key, shape, kind }) => {
                match kind {
                    IssueKind::Missing => String::from_str("Invalid args: missing field `").concat(
                        key.as_str(),
                    ).concat("`"),
                    IssueKind::WrongType => String::from_str("Invalid args: invalid type for field `").concat(
                        key.as_str(),
                    ).concat("`, expected ").concat(shape_words(*shape)),
                    IssueKind::OutOfRange => String::from_str("Invalid args: invalid value for field `").concat(
                        key.as_str(),
                    ).concat("`, expected ").concat(shape_words(*shape)),
                }
            },
        }
    }
}

} // verus!
