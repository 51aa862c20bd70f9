//! The launcher's decisions between the user interface and the filesystem:
//! which names may become project paths, which actions a query offers, how
//! history and directory usage are recorded, and how a parsed command is
//! routed.

use vstd::prelude::*;
use crate::catalog::{definition_for, spec_definition_for, ExecutionMode};
use crate::models::{
    clone_opt_string, clone_strings, AppData, AppDataView, CommandAction, CommandActionKind,
    DirectoryRecord, HistoryAction, HistoryActionKind, HistoryItem, HistoryItemView, LauncherState,
    OperationConfirmation, OperationKind, ParsedCommand, ParsedView, PresentationOutput, Workspace,
};
use crate::parser::{parse, parse_outcome, ParseOutcome};
use crate::presentation::PresentationResult;
use crate::workspace::{inside_enabled, is_configured_root, root_holds, usable_root};
use crate::paths::{file_name, file_name_of, parent, parent_of};
use crate::text::{trim, trim_str};
use crate::paths::{components, components_of, is_absolute, join, named_parts, path_join, path_starts_with, lemma_join_components};
use crate::text::{chars_of, ends_with, ends_with_exec, starts_with, starts_with_exec, str_eq};

verus! {

/// A name that may stand for one entry directly below a workspace root.
pub open spec fn is_safe_child(name: Seq<char>) -> bool {
    &&& name.len() > 0
    &&& name != "."@
    &&& name != ".."@
    &&& !starts_with(name, "-"@)
    &&& !ends_with(name, "/"@)
    &&& components(name).len() == 1
}

/// Whether `name` may stand for one entry directly below a workspace root:
/// not empty, not `.` or `..`, not an option, without a trailing `/`, and a
/// single path component.
pub fn is_safe_child_name(name: &str) -> (r: bool)
    ensures
        r == is_safe_child(name@),
{
    let chars = chars_of(name);
    if chars.len() == 0 || str_eq(name, ".") || str_eq(name, "..") {
        return false;
    }
    let dash = chars_of("-");
    let slash = chars_of("/");
    if starts_with_exec(&chars, &dash) || ends_with_exec(&chars, &slash) {
        return false;
    }
    components_of(name).len() == 1
}

/// A safe name that is relative and holds no `..` part names the root itself
/// or one entry directly below it: joining it never leaves the root.
pub proof fn lemma_safe_child_stays_below_root(root: Seq<char>, name: Seq<char>)
    requires
        is_absolute(root),
        is_safe_child(name),
        !is_absolute(name),
        !named_parts(name).contains(".."@),
    ensures
        path_starts_with(join(root, name), root),
        components(join(root, name)).len() <= components(root).len() + 1,
        forall|k: int|
            components(root).len() <= k < components(join(root, name)).len() ==> components(
                join(root, name),
            )[k] != ".."@,
{
    lemma_join_components(root, name);
    let c = components(join(root, name));
    let r = components(root);
    assert(c.subrange(0, r.len() as int) =~= r);
    assert(named_parts(name).len() <= components(name).len());
    assert forall|k: int| r.len() <= k < c.len() implies c[k] != ".."@ by {
        assert(c[k] == named_parts(name)[k - r.len()]);
    }
}

pub open spec fn open_file_description(target: Seq<char>) -> Seq<char> {
    "选择工作区后使用 VS Code 打开 "@ + target
}

pub open spec fn create_directory_description(target: Seq<char>) -> Seq<char> {
    "选择工作区后创建目录 "@ + target
}

/// The explicit actions offered for `code <name>` when `name` is a plain,
/// safe name: open it as a file, or create it as a project directory.
pub open spec fn offers_actions(executable: Seq<char>, target: Option<Seq<char>>) -> bool {
    target is Some && executable == "code"@ && is_safe_child(target->0)
}

/// The characters of an optional string slice.
pub open spec fn str_opt_view(t: Option<&str>) -> Option<Seq<char>> {
    match t {
        Some(s) => Some(s@),
        None => None,
    }
}

/// An action by its fields: id, kind, label, description, and whether it needs a workspace.
pub open spec fn action_view(a: CommandAction) -> (Seq<char>, CommandActionKind, Seq<char>, Seq<char>, bool) {
    (a.id@, a.kind, a.label@, a.description@, a.requires_workspace)
}

/// The actions offered for `executable` with directory argument `target`.
pub open spec fn spec_candidate_actions(executable: Seq<char>, target: Option<Seq<char>>) -> Seq<
    (Seq<char>, CommandActionKind, Seq<char>, Seq<char>, bool),
> {
    if offers_actions(executable, target) {
        seq![
            ("open-file"@, CommandActionKind::OpenFile, "作为文件打开"@, open_file_description(target->0), true),
            ("create-directory"@, CommandActionKind::CreateDirectory, "创建项目目录并打开"@, create_directory_description(target->0), true),
        ]
    } else {
        seq![]
    }
}

/// Candidate actions for a parsed query whose directory argument is `target`.
pub fn candidate_actions(parsed: &ParsedCommand, target: Option<&str>) -> (r: Vec<CommandAction>)
    ensures
        r@.map_values(|a: CommandAction| action_view(a)) == spec_candidate_actions(
            parsed.executable@,
            str_opt_view(target),
        ),
{
    let target = match target {
        None => {
            let r: Vec<CommandAction> = Vec::new();
            assert(r@.map_values(|a: CommandAction| action_view(a)) =~= seq![]);
            return r;
        },
        Some(t) => t,
    };
    if !str_eq(parsed.executable.as_str(), "code") || !is_safe_child_name(target) {
        let r: Vec<CommandAction> = Vec::new();
        assert(r@.map_values(|a: CommandAction| action_view(a)) =~= seq![]);
        return r;
    }
    let mut open_description = "选择工作区后使用 VS Code 打开 ".to_owned();
    open_description.append(target);
    let mut create_description = "选择工作区后创建目录 ".to_owned();
    create_description.append(target);
    let mut r: Vec<CommandAction> = Vec::new();
    r.push(
        CommandAction {
            id: "open-file".to_owned(),
            kind: CommandActionKind::OpenFile,
            label: "作为文件打开".to_owned(),
            description: open_description,
            requires_workspace: true,
        },
    );
    r.push(
        CommandAction {
            id: "create-directory".to_owned(),
            kind: CommandActionKind::CreateDirectory,
            label: "创建项目目录并打开".to_owned(),
            description: create_description,
            requires_workspace: true,
        },
    );
    assert(r@.map_values(|a: CommandAction| action_view(a)) =~= spec_candidate_actions(
        parsed.executable@,
        Some(target@),
    ));
    r
}

/// The history without the items whose id is `id`.
pub open spec fn without_item(history: Seq<HistoryItemView>, id: Seq<char>) -> Seq<HistoryItemView> {
    history.filter(|h: HistoryItemView| h.id@ != id)
}

/// Deletes the history items with id `history_id`; reports whether any was
/// deleted. Nothing else changes: directory usage counts stay as they were.
pub fn remove_history_item(data: &mut AppData, history_id: &str) -> (r: bool)
    ensures
        final(data)@ == (AppDataView { history: without_item(old(data)@.history, history_id@), ..old(data)@ }),
        r == (final(data)@.history.len() != old(data)@.history.len()),
{
    let ghost initial = data.history.deep_view();
    let initial_len = data.history.len();
    let ghost keep = |h: HistoryItemView| h.id@ != history_id@;
    let mut i: usize = 0;
    let ghost mut j: int = 0;
    proof {
        assert(initial.subrange(0, 0).filter(keep) =~= Seq::<HistoryItemView>::empty()) by {
            reveal(Seq::filter);
        }
        assert(data.history.deep_view() =~= initial.subrange(0, 0).filter(keep) + initial.subrange(0, initial.len() as int));
    }
    while i < data.history.len()
        invariant
            0 <= j <= initial.len(),
            i == initial.subrange(0, j).filter(keep).len(),
            data.history.deep_view() == initial.subrange(0, j).filter(keep) + initial.subrange(j, initial.len() as int),
            data.version == old(data).version,
            data.settings@ == old(data).settings@,
            data.active_context == old(data).active_context,
            data.directories@ == old(data).directories@,
            data.startup_notice == old(data).startup_notice,
            initial == old(data).history.deep_view(),
            keep == (|h: HistoryItemView| h.id@ != history_id@),
        decreases data.history.len() - i,
    {
        let ghost before = data.history.deep_view();
        let ghost done = initial.subrange(0, j).filter(keep);
        assert(initial.subrange(0, j + 1) =~= initial.subrange(0, j).push(initial[j]));
        proof {
            initial.subrange(0, j).lemma_filter_push(initial[j], keep);
        }
        assert(before[i as int] == initial[j]);
        assert(data.history@[i as int].deep_view() == initial[j]);
        if str_eq(data.history[i].id.as_str(), history_id) {
            data.history.remove(i);
            assert(data.history.deep_view() =~= before.remove(i as int));
            assert(data.history.deep_view() =~= initial.subrange(0, j + 1).filter(keep) + initial.subrange(j + 1, initial.len() as int));
        } else {
            assert(data.history.deep_view() =~= initial.subrange(0, j + 1).filter(keep) + initial.subrange(j + 1, initial.len() as int));
            i = i + 1;
        }
        proof {
            j = j + 1;
        }
    }
    proof {
        assert(initial.subrange(j, initial.len() as int).len() == 0);
        assert(j == initial.len());
        assert(initial.subrange(0, j) =~= initial);
        assert(data.history.deep_view() =~= initial.filter(keep));
    }
    data.history.len() != initial_len
}

/// How many history items the launcher shows.
pub const VISIBLE_HISTORY: usize = 30;

/// How many history items are kept.
pub const KEPT_HISTORY: usize = 200;

/// The first `n` items of `s`, or all of them when there are fewer.
pub open spec fn first_items<T>(s: Seq<T>, n: int) -> Seq<T> {
    if s.len() > n {
        s.take(n)
    } else {
        s
    }
}

/// What the launcher shows on opening: the settings, the active context, the
/// latest 30 history items and the number of indexed directories.
pub fn snapshot(data: &AppData) -> (r: LauncherState)
    ensures
        r.settings@ == data.settings@,
        r.active_context == data.active_context,
        r.history.deep_view() == first_items(data.history.deep_view(), VISIBLE_HISTORY as int),
        r.indexed_directory_count == data.directories.len(),
{
    let mut history: Vec<HistoryItem> = Vec::new();
    let n = if data.history.len() > VISIBLE_HISTORY {
        VISIBLE_HISTORY
    } else {
        data.history.len()
    };
    let mut i: usize = 0;
    while i < n
        invariant
            n <= data.history.len(),
            i <= n,
            history.deep_view() == data.history.deep_view().take(i as int),
        decreases n - i,
    {
        let item = data.history[i].clone();
        let ghost before = history.deep_view();
        history.push(item);
        assert(history.deep_view() =~= before.push(item@));
        assert(history.deep_view() =~= data.history.deep_view().take(i + 1));
        i = i + 1;
    }
    assert(data.history.deep_view().take(data.history.len() as int) =~= data.history.deep_view());
    LauncherState {
        settings: data.settings.clone(),
        active_context: clone_opt_string(&data.active_context),
        history,
        indexed_directory_count: data.directories.len(),
    }
}

/// `j` is the first directory record whose path is `path`.
pub open spec fn first_with_path(dirs: Seq<DirectoryRecord>, path: Seq<char>, j: int) -> bool {
    &&& 0 <= j < dirs.len()
    &&& dirs[j].path@ == path
    &&& forall|k: int| 0 <= k < j ==> dirs[k].path@ != path
}

/// The directory records after a successful use of `target` at time `ts`: the
/// first record with that path counts one more use and remembers the time.
pub open spec fn used_directories(dirs: Seq<DirectoryRecord>, target: Option<Seq<char>>, ts: u64) -> Seq<
    DirectoryRecord,
> {
    match target {
        None => dirs,
        Some(t) => if exists|j: int| first_with_path(dirs, t, j) {
            let j = choose|j: int| first_with_path(dirs, t, j);
            dirs.update(
                j,
                DirectoryRecord {
                    use_count: (dirs[j].use_count + 1) as u32,
                    last_used_at: Some(ts),
                    ..dirs[j]
                },
            )
        } else {
            dirs
        },
    }
}

/// A successful use of `target` does not overflow its use count.
pub open spec fn use_count_has_room(dirs: Seq<DirectoryRecord>, target: Option<Seq<char>>) -> bool {
    forall|j: int|
        #![trigger dirs[j]]
        target is Some && first_with_path(dirs, target->0, j) ==> dirs[j].use_count < u32::MAX
}

/// `item` records the query `query`, parsed as `parsed`, run with `args` on
/// `target` as an action of kind `kind` at time `ts`.
pub open spec fn describes(
    item: HistoryItemView,
    query: Seq<char>,
    parsed: ParsedView,
    args: Seq<String>,
    target: Option<String>,
    kind: HistoryActionKind,
    ts: u64,
) -> bool {
    &&& item.display_text@ == query
    &&& item.executable == parsed.executable
    &&& item.args == args
    &&& item.target_path == target
    &&& item.action == Some(HistoryAction { kind })
    &&& item.executed_at == ts
}

/// `new` is `old` after recording `item` (newest first, at most 200 kept) and
/// counting the use of `target` at time `ts`.
pub open spec fn recorded(
    old: AppDataView,
    new: AppDataView,
    item: HistoryItemView,
    target: Option<Seq<char>>,
    ts: u64,
) -> bool {
    new == AppDataView {
        directories: used_directories(old.directories, target, ts),
        history: first_items(seq![item] + old.history, KEPT_HISTORY as int),
        ..old
    }
}

/// The characters of an optional string.
pub open spec fn opt_view(t: Option<String>) -> Option<Seq<char>> {
    match t {
        Some(s) => Some(s@),
        None => None,
    }
}

/// The index of the first record whose path is `path`.
fn first_record_index(dirs: &Vec<DirectoryRecord>, path: &String) -> (r: Option<usize>)
    ensures
        match r {
            Some(j) => first_with_path(dirs@, path@, j as int),
            None => forall|j: int| 0 <= j < dirs@.len() ==> dirs@[j].path@ != path@,
        },
{
    let mut j: usize = 0;
    while j < dirs.len()
        invariant
            j <= dirs.len(),
            forall|k: int| 0 <= k < j ==> dirs@[k].path@ != path@,
        decreases dirs.len() - j,
    {
        if dirs[j].path == *path {
            return Some(j);
        }
        j = j + 1;
    }
    None
}

/// Records a successful command: the history gains a new first item with
/// identifier `id` and time `timestamp` (the caller draws both), and the
/// directory record of `target_path` (the first one with that path) counts
/// one more use.
pub fn record_success(
    data: &mut AppData,
    query: &str,
    parsed: &ParsedCommand,
    args: Vec<String>,
    target_path: Option<String>,
    action_kind: HistoryActionKind,
    timestamp: u64,
    id: String,
)
    requires
        use_count_has_room(old(data).directories@, opt_view(target_path)),
    ensures
        final(data).history@.len() > 0,
        final(data)@.history[0].id == id,
        describes(final(data)@.history[0], query@, parsed@, args@, target_path, action_kind, timestamp),
        recorded(old(data)@, final(data)@, final(data)@.history[0], opt_view(target_path), timestamp),
{
    let ghost old_dirs = data.directories@;
    let ghost old_history = data.history.deep_view();
    let ghost old_items = data.history@;
    if let Some(target) = &target_path {
        match first_record_index(&data.directories, target) {
            Some(j) => {
                assert(data.directories@[j as int].use_count < u32::MAX);
                let mut record = data.directories[j].clone();
                record.use_count = record.use_count + 1;
                record.last_used_at = Some(timestamp);
                data.directories.set(j, record);
                proof {
                    let c = choose|c: int| first_with_path(old_dirs, target@, c);
                    assert(c == j as int) by {
                        if c < j as int {
                        } else if c > j as int {
                        }
                    }
                }
            },
            None => {},
        }
    }
    assert(data.directories@ == used_directories(old_dirs, opt_view(target_path), timestamp));
    let item = HistoryItem {
        id,
        display_text: query.to_owned(),
        executable: parsed.executable.clone(),
        args,
        target_path,
        action: Some(HistoryAction { kind: action_kind }),
        executed_at: timestamp,
    };
    let ghost item_view = item@;
    data.history.insert(0, item);
    assert(data.history@ =~= old_items.insert(0, item));
    assert forall|k: int| 0 <= k < data.history@.len() implies #[trigger] data.history.deep_view()[k]
        == (seq![item_view] + old_history)[k] by {
        if k > 0 {
            assert(data.history@[k] == old_items[k - 1]);
        }
    }
    assert(data.history.deep_view() =~= seq![item_view] + old_history);
    if data.history.len() > KEPT_HISTORY {
        data.history.truncate(KEPT_HISTORY);
        assert(data.history.deep_view() =~= (seq![item_view] + old_history).take(KEPT_HISTORY as int));
    }
}

pub const INVALID_DIRECTORY_ARGUMENT_MESSAGE: &'static str = "目录参数位置无效";

/// The arguments a launcher is started with: the directory argument replaced
/// by the resolved `target_path` when there is one.
pub fn launch_arguments(parsed: &ParsedCommand, target_path: Option<&str>) -> (r: Result<Vec<String>, String>)
    ensures
        match (parsed.directory_arg_index, target_path) {
            (Some(i), Some(t)) => if i >= parsed.args.len() {
                r matches Err(m) && m@ == INVALID_DIRECTORY_ARGUMENT_MESSAGE@
            } else {
                r matches Ok(a) && a.deep_view() == parsed.args.deep_view().update(i as int, t@)
            },
            _ => r matches Ok(a) && a.deep_view() == parsed.args.deep_view(),
        },
{
    let mut args = clone_strings(&parsed.args);
    assert(args.deep_view() =~= parsed.args.deep_view());
    match (parsed.directory_arg_index, target_path) {
        (Some(index), Some(target)) => {
            if index >= args.len() {
                return Err(INVALID_DIRECTORY_ARGUMENT_MESSAGE.to_owned());
            }
            args.set(index, target.to_owned());
            assert(args.deep_view() =~= parsed.args.deep_view().update(index as int, target@));
            Ok(args)
        },
        _ => Ok(args),
    }
}

/// The message when `executable` could not be started.
pub open spec fn launch_failure_text(executable: Seq<char>) -> Seq<char> {
    "无法启动 "@ + executable + "，请确认该命令在应用 PATH 中可用"@
}

/// The message when `executable` could not be started.
pub fn launch_failure_message(executable: &str) -> (r: String)
    ensures
        r@ == launch_failure_text(executable@),
{
    let mut r = "无法启动 ".to_owned();
    r.append(executable);
    r.append("，请确认该命令在应用 PATH 中可用");
    r
}

/// Where `cd` moves: a selected result as it is, an absolute request as it
/// is, a relative request below the active context; `None` when a relative
/// request has no context to start from.
pub fn cd_candidate(requested: &str, selected_path: Option<&str>, active_context: &Option<String>) -> (r:
    Option<String>)
    ensures
        opt_view(r) == match selected_path {
            Some(s) => Some(s@),
            None => if is_absolute(requested@) {
                Some(requested@)
            } else {
                match active_context {
                    Some(c) => Some(join(c@, requested@)),
                    None => None,
                }
            },
        },
{
    if let Some(selected) = selected_path {
        return Some(selected.to_owned());
    }
    if crate::paths::is_absolute_path(requested) {
        return Some(requested.to_owned());
    }
    match active_context {
        Some(context) => Some(path_join(context.as_str(), requested)),
        None => None,
    }
}

pub const MKDIR_INVALID_REQUEST_MESSAGE: &'static str = "请输入有效的目录路径；mkdir 暂不支持命令选项";

pub const MKDIR_INVALID_NAME_MESSAGE: &'static str = "目录名称无效，请输入明确的目录名称";

pub const MKDIR_NO_PARENT_MESSAGE: &'static str = "无法确定目标目录的父目录";

/// The path `mkdir` would create, before the filesystem is consulted: an
/// error for an empty request or an option, `None` when a relative request
/// has no active context.
pub fn mkdir_candidate(requested: &str, active_context: &Option<String>) -> (r: Result<Option<String>, String>)
    ensures
        if requested@.len() == 0 || starts_with(requested@, "-"@) {
            r matches Err(m) && m@ == MKDIR_INVALID_REQUEST_MESSAGE@
        } else if is_absolute(requested@) {
            r matches Ok(Some(c)) && c@ == requested@
        } else {
            match active_context {
                Some(ctx) => r matches Ok(Some(c)) && c@ == join(ctx@, requested@),
                None => r matches Ok(None),
            }
        },
{
    let chars = chars_of(requested);
    let dash = chars_of("-");
    if chars.len() == 0 || starts_with_exec(&chars, &dash) {
        return Err(MKDIR_INVALID_REQUEST_MESSAGE.to_owned());
    }
    if crate::paths::is_absolute_path(requested) {
        return Ok(Some(requested.to_owned()));
    }
    match active_context {
        Some(context) => Ok(Some(path_join(context.as_str(), requested))),
        None => Ok(None),
    }
}

/// The name of the directory `candidate` would create and the path of its
/// parent.
pub fn mkdir_name_and_parent(candidate: &str) -> (r: Result<(String, String), String>)
    ensures
        match file_name(candidate@) {
            None => r matches Err(m) && m@ == MKDIR_INVALID_NAME_MESSAGE@,
            Some(name) => match parent(candidate@) {
                None => r matches Err(m) && m@ == MKDIR_NO_PARENT_MESSAGE@,
                Some(p) => r matches Ok((n, q)) && n@ == name && q@ == p,
            },
        },
{
    let name = match file_name_of(candidate) {
        None => return Err(MKDIR_INVALID_NAME_MESSAGE.to_owned()),
        Some(n) => n,
    };
    match parent_of(candidate) {
        None => Err(MKDIR_NO_PARENT_MESSAGE.to_owned()),
        Some(p) => Ok((name, p)),
    }
}

pub open spec fn mkdir_title(name: Seq<char>) -> Seq<char> {
    "创建目录 "@ + name
}

pub const MKDIR_CONFIRM_DESCRIPTION: &'static str = "确认后将在所选工作区内创建这个目录。";

/// The confirmation shown before `mkdir` creates `target` inside `workspace`.
pub fn mkdir_confirmation(name: &str, target: String, workspace: String) -> (r: OperationConfirmation)
    ensures
        r.kind == OperationKind::CreateDirectory,
        r.title@ == mkdir_title(name@),
        r.description@ == MKDIR_CONFIRM_DESCRIPTION@,
        r.target_path == target,
        r.workspace_path == workspace,
{
    let mut title = "创建目录 ".to_owned();
    title.append(name);
    OperationConfirmation {
        kind: OperationKind::CreateDirectory,
        title,
        description: MKDIR_CONFIRM_DESCRIPTION.to_owned(),
        target_path: target,
        workspace_path: workspace,
    }
}

/// Where a parsed command goes.
#[derive(Debug)]
pub enum CommandRoute {
    /// A listing or a text file shown inside the launcher.
    Present,
    /// `cd` to the requested path.
    ChangeDirectory(String),
    /// `mkdir` of the requested path, after confirmation.
    CreateDirectory(String),
    /// An external application started with the arguments.
    Launch,
}

pub const CD_MISSING_MESSAGE: &'static str = "请输入要切换到的目录名称或路径";

pub const CD_TOO_MANY_MESSAGE: &'static str = "cd 一次只能切换到一个目录";

pub const MKDIR_MISSING_MESSAGE: &'static str = "请输入要创建的目录名称或路径";

pub const MKDIR_TOO_MANY_MESSAGE: &'static str = "mkdir 当前一次只能创建一个目录";

pub open spec fn not_open_text(executable: Seq<char>) -> Seq<char> {
    executable + " 尚未开放，请等待应用内安全确认流程完成"@
}

/// The route of a parsed command, chosen by its catalog definition: capture
/// commands are presented, `cd` and `mkdir` take exactly one path, other
/// internal commands are refused, and the rest are launched.
pub fn route_command(parsed: &ParsedCommand) -> (r: Result<CommandRoute, String>)
    ensures
        ({
            let d = spec_definition_for(parsed.executable@);
            let args = parsed.args@;
            if d.execution_mode == ExecutionMode::Capture {
                r matches Ok(CommandRoute::Present)
            } else if d.execution_mode == ExecutionMode::Internal && parsed.executable@ == "cd"@ {
                if args.len() == 1 {
                    r matches Ok(CommandRoute::ChangeDirectory(p)) && p@ == args[0]@
                } else if args.len() == 0 {
                    r matches Err(m) && m@ == CD_MISSING_MESSAGE@
                } else {
                    r matches Err(m) && m@ == CD_TOO_MANY_MESSAGE@
                }
            } else if d.execution_mode == ExecutionMode::Internal && parsed.executable@ == "mkdir"@ {
                if args.len() == 1 {
                    r matches Ok(CommandRoute::CreateDirectory(p)) && p@ == args[0]@
                } else if args.len() == 0 {
                    r matches Err(m) && m@ == MKDIR_MISSING_MESSAGE@
                } else {
                    r matches Err(m) && m@ == MKDIR_TOO_MANY_MESSAGE@
                }
            } else if d.execution_mode == ExecutionMode::Internal {
                r matches Err(m) && m@ == not_open_text(parsed.executable@)
            } else {
                r matches Ok(CommandRoute::Launch)
            }
        }),
{
    let definition = definition_for(parsed.executable.as_str());
    if definition.execution_mode == ExecutionMode::Capture {
        return Ok(CommandRoute::Present);
    }
    if definition.execution_mode == ExecutionMode::Internal && str_eq(parsed.executable.as_str(), "cd") {
        if parsed.args.len() == 1 {
            return Ok(CommandRoute::ChangeDirectory(parsed.args[0].clone()));
        } else if parsed.args.len() == 0 {
            return Err(CD_MISSING_MESSAGE.to_owned());
        } else {
            return Err(CD_TOO_MANY_MESSAGE.to_owned());
        }
    }
    if definition.execution_mode == ExecutionMode::Internal && str_eq(parsed.executable.as_str(), "mkdir") {
        if parsed.args.len() == 1 {
            return Ok(CommandRoute::CreateDirectory(parsed.args[0].clone()));
        } else if parsed.args.len() == 0 {
            return Err(MKDIR_MISSING_MESSAGE.to_owned());
        } else {
            return Err(MKDIR_TOO_MANY_MESSAGE.to_owned());
        }
    }
    if definition.execution_mode == ExecutionMode::Internal {
        let mut m = parsed.executable.clone();
        m.append(" 尚未开放，请等待应用内安全确认流程完成");
        return Err(m);
    }
    Ok(CommandRoute::Launch)
}

pub const ACTION_UNSUPPORTED_MESSAGE: &'static str = "当前命令不支持该候选动作";

pub const ACTION_NO_PATH_ARGUMENT_MESSAGE: &'static str = "当前命令没有路径参数";

pub const ACTION_MISSING_NAME_MESSAGE: &'static str = "缺少项目名称";

pub const ACTION_UNSAFE_NAME_MESSAGE: &'static str = "目标名称只能是单个安全文件或目录名";

/// The name a candidate action applies to: only `code`, only through its
/// directory argument, and only when that argument is a safe child name.
pub fn action_target_name(parsed: &ParsedCommand) -> (r: Result<String, String>)
    ensures
        parsed.executable@ != "code"@ ==> (r matches Err(m) && m@ == ACTION_UNSUPPORTED_MESSAGE@),
        parsed.executable@ == "code"@ ==> match parsed.directory_arg_index {
            None => r matches Err(m) && m@ == ACTION_NO_PATH_ARGUMENT_MESSAGE@,
            Some(i) => if i >= parsed.args@.len() {
                r matches Err(m) && m@ == ACTION_MISSING_NAME_MESSAGE@
            } else if !is_safe_child(parsed.args@[i as int]@) {
                r matches Err(m) && m@ == ACTION_UNSAFE_NAME_MESSAGE@
            } else {
                r matches Ok(n) && n == parsed.args@[i as int]
            },
        },
{
    if !str_eq(parsed.executable.as_str(), "code") {
        return Err(ACTION_UNSUPPORTED_MESSAGE.to_owned());
    }
    let index = match parsed.directory_arg_index {
        None => return Err(ACTION_NO_PATH_ARGUMENT_MESSAGE.to_owned()),
        Some(i) => i,
    };
    if index >= parsed.args.len() {
        return Err(ACTION_MISSING_NAME_MESSAGE.to_owned());
    }
    if !is_safe_child_name(parsed.args[index].as_str()) {
        return Err(ACTION_UNSAFE_NAME_MESSAGE.to_owned());
    }
    Ok(parsed.args[index].clone())
}

pub const CONFIRMATION_MISMATCH_MESSAGE: &'static str = "当前确认信息与命令不匹配，请重新执行命令";

/// The path a confirmed operation applies to: the query must still be a
/// `mkdir` of exactly one path.
pub fn confirmation_request(parsed: &ParsedCommand, operation_kind: OperationKind) -> (r: Result<String, String>)
    ensures
        if parsed.executable@ != "mkdir"@ || operation_kind != OperationKind::CreateDirectory {
            r matches Err(m) && m@ == CONFIRMATION_MISMATCH_MESSAGE@
        } else if parsed.args@.len() == 1 {
            r matches Ok(p) && p == parsed.args@[0]
        } else {
            r matches Err(m) && m@ == MKDIR_TOO_MANY_MESSAGE@
        },
{
    if !str_eq(parsed.executable.as_str(), "mkdir") || operation_kind != OperationKind::CreateDirectory {
        return Err(CONFIRMATION_MISMATCH_MESSAGE.to_owned());
    }
    if parsed.args.len() == 1 {
        Ok(parsed.args[0].clone())
    } else {
        Err(MKDIR_TOO_MANY_MESSAGE.to_owned())
    }
}

/// `dirs` already holds a record with path `path`.
pub open spec fn has_record(dirs: Seq<DirectoryRecord>, path: Seq<char>) -> bool {
    exists|k: int| 0 <= k < dirs.len() && dirs[k].path@ == path
}

fn contains_record(dirs: &Vec<DirectoryRecord>, path: &String) -> (r: bool)
    ensures
        r == has_record(dirs@, path@),
{
    match first_record_index(dirs, path) {
        Some(_) => true,
        None => false,
    }
}

/// Records a directory that `mkdir` created at `target`: it joins the index
/// (once) and the history gains a creation item.
pub fn record_created_directory(
    data: &mut AppData,
    target: String,
    name: String,
    query: &str,
    parsed: &ParsedCommand,
    timestamp: u64,
    id: String,
)
    requires
        use_count_has_room(old(data).directories@, Some(target@)),
    ensures
        final(data).history@.len() > 0,
        final(data)@.history[0].id == id,
        ({
            let item = final(data)@.history[0];
            let index = if has_record(old(data)@.directories, target@) {
                old(data)@.directories
            } else {
                old(data)@.directories.push(
                    DirectoryRecord { path: target, name, use_count: 0, last_used_at: None },
                )
            };
            &&& describes(
                item,
                query@,
                parsed@,
                seq![target],
                Some(target),
                HistoryActionKind::CreateDirectory,
                timestamp,
            )
            &&& recorded(
                AppDataView { directories: index, ..old(data)@ },
                final(data)@,
                item,
                Some(target@),
                timestamp,
            )
        }),
{
    if !contains_record(&data.directories, &target) {
        let ghost before = data.directories@;
        data.directories.push(
            DirectoryRecord { path: target.clone(), name, use_count: 0, last_used_at: None },
        );
        assert forall|j: int|
            #![trigger data.directories@[j]]
            first_with_path(data.directories@, target@, j) implies data.directories@[j].use_count
            < u32::MAX by {
            if j < before.len() {
                assert(before[j].path@ == target@);
            }
        }
    }
    let mut args: Vec<String> = Vec::new();
    args.push(target.clone());
    assert(args@ =~= seq![target]);
    record_success(data, query, parsed, args, Some(target), HistoryActionKind::CreateDirectory, timestamp, id);
}

/// Names that the directory index skips: hidden directories and common
/// dependency or build output directories.
pub open spec fn is_indexable(name: Seq<char>) -> bool {
    !starts_with(name, "."@) && name != "node_modules"@ && name != "target"@ && name != "dist"@
        && name != "build"@
}

/// Whether a directory named `name` is indexed and scanned further.
pub fn is_indexable_directory(name: &str) -> (r: bool)
    ensures
        r == is_indexable(name@),
{
    let chars = chars_of(name);
    let dot = chars_of(".");
    !starts_with_exec(&chars, &dot) && !str_eq(name, "node_modules") && !str_eq(name, "target")
        && !str_eq(name, "dist") && !str_eq(name, "build")
}

/// How deep below a workspace root the directory index reaches; the root's
/// own entries lie at depth 1.
pub const SCAN_DEPTH: usize = 4;

/// What the index scan does with one entry of a directory it reads.
#[derive(Debug, Clone, Copy, PartialEq, Eq, Structural)]
pub enum ScanStep {
    /// Not indexed and not read further.
    Skip,
    /// Indexed; its own entries would lie deeper than the scan reaches.
    Record,
    /// Indexed, and its entries are read at the next depth.
    RecordAndDescend,
}

/// The step for an entry named `name` at `depth`: only indexable directories
/// no deeper than `max_depth` are indexed, and only those above `max_depth`
/// are read further.
pub open spec fn spec_scan_step(depth: int, max_depth: int, is_dir: bool, name: Seq<char>) -> ScanStep {
    if !is_dir || !is_indexable(name) || depth > max_depth {
        ScanStep::Skip
    } else if depth < max_depth {
        ScanStep::RecordAndDescend
    } else {
        ScanStep::Record
    }
}

/// The step for an entry named `name` at `depth` of a scan that reaches
/// `max_depth`; `is_dir` tells whether the entry is a directory.
pub fn scan_step(depth: usize, max_depth: usize, is_dir: bool, name: &str) -> (r: ScanStep)
    ensures
        r == spec_scan_step(depth as int, max_depth as int, is_dir, name@),
{
    if !is_dir || !is_indexable_directory(name) || depth > max_depth {
        ScanStep::Skip
    } else if depth < max_depth {
        ScanStep::RecordAndDescend
    } else {
        ScanStep::Record
    }
}

/// The scan stays within its depth: an entry is indexed only at a depth of
/// at most `max_depth`, and a directory is read further only when its entries
/// (one level deeper) are still within it. So a scan that reads the root's
/// entries at depth 1 and follows these steps indexes nothing deeper than
/// `max_depth`.
pub proof fn lemma_scan_stays_within_depth(depth: int, max_depth: int, is_dir: bool, name: Seq<char>)
    ensures
        spec_scan_step(depth, max_depth, is_dir, name) != ScanStep::Skip ==> depth <= max_depth,
        spec_scan_step(depth, max_depth, is_dir, name) == ScanStep::RecordAndDescend ==> depth + 1
            <= max_depth,
        spec_scan_step(depth, max_depth, is_dir, name) != ScanStep::Skip ==> is_dir && is_indexable(name),
{
}

/// The message when a workspace root to scan is not a directory.
pub open spec fn missing_workspace_text(root: Seq<char>) -> Seq<char> {
    "工作区不存在: "@ + root
}

/// The message when a workspace root to scan is not a directory.
pub fn missing_workspace_message(root: &str) -> (r: String)
    ensures
        r@ == missing_workspace_text(root@),
{
    let mut r = "工作区不存在: ".to_owned();
    r.append(root);
    r
}

/// Applies a candidate action after the filesystem work succeeded: a created
/// directory joins the index, the active context moves to the workspace root
/// (opened file) or to the new directory, and the history records the action.
pub fn record_action(
    data: &mut AppData,
    action_kind: CommandActionKind,
    workspace_root: String,
    target: String,
    name: String,
    query: &str,
    parsed: &ParsedCommand,
    args: Vec<String>,
    timestamp: u64,
    id: String,
)
    requires
        use_count_has_room(old(data).directories@, Some(target@)),
    ensures
        final(data).history@.len() > 0,
        final(data)@.history[0].id == id,
        ({
            let item = final(data)@.history[0];
            let index = if action_kind == CommandActionKind::CreateDirectory {
                old(data)@.directories.push(
                    DirectoryRecord { path: target, name, use_count: 0, last_used_at: None },
                )
            } else {
                old(data)@.directories
            };
            let context = if action_kind == CommandActionKind::CreateDirectory {
                target
            } else {
                workspace_root
            };
            let kind = if action_kind == CommandActionKind::CreateDirectory {
                HistoryActionKind::CreateDirectoryAndOpen
            } else {
                HistoryActionKind::OpenFile
            };
            &&& describes(item, query@, parsed@, args@, Some(target), kind, timestamp)
            &&& recorded(
                AppDataView { directories: index, active_context: Some(context), ..old(data)@ },
                final(data)@,
                item,
                Some(target@),
                timestamp,
            )
        }),
{
    let ghost before = data.directories@;
    let history_kind = match action_kind {
        CommandActionKind::OpenFile => HistoryActionKind::OpenFile,
        CommandActionKind::CreateDirectory => {
            data.directories.push(
                DirectoryRecord { path: target.clone(), name, use_count: 0, last_used_at: None },
            );
            assert forall|j: int|
                #![trigger data.directories@[j]]
                first_with_path(data.directories@, target@, j) implies data.directories@[j].use_count
                < u32::MAX by {
                if j < before.len() {
                    assert(data.directories@[j] == before[j]);
                    assert forall|k: int| 0 <= k < j implies before[k].path@ != target@ by {
                        assert(data.directories@[k] == before[k]);
                    }
                    assert(first_with_path(before, target@, j));
                    assert(before[j].use_count < u32::MAX);
                }
            }
            HistoryActionKind::CreateDirectoryAndOpen
        },
    };
    data.active_context = Some(
        match action_kind {
            CommandActionKind::OpenFile => workspace_root,
            CommandActionKind::CreateDirectory => target.clone(),
        },
    );
    record_success(data, query, parsed, args, Some(target), history_kind, timestamp, id);
}

/// What a query in the launcher asks for, before directories are ranked.
#[derive(Debug)]
pub struct SearchPlan {
    /// The executable of the query (none for an empty query).
    pub executable: Option<String>,
    /// The directory argument of the query.
    pub directory_query: Option<String>,
    /// The directory argument when it is a plain name to rank projects by.
    pub search_term: Option<String>,
    pub actions: Vec<CommandAction>,
    /// An empty query shows the recent history instead.
    pub show_history: bool,
}

/// The directory argument of an accepted parse.
pub open spec fn directory_query_of(args: Seq<Seq<char>>, index: Option<usize>) -> Option<Seq<char>> {
    match index {
        Some(i) => if i < args.len() {
            Some(args[i as int])
        } else {
            None
        },
        None => None,
    }
}

/// Plans a launcher query: an empty query shows history; otherwise the line
/// is parsed, its directory argument becomes the search term when it is a
/// safe plain name, and the candidate actions are offered.
pub fn plan_search(query: &str) -> (r: Result<SearchPlan, String>)
    ensures
        trim(query@).len() == 0 ==> (r matches Ok(p) && p.show_history && p.executable is None
            && p.directory_query is None && p.search_term is None && p.actions@.len() == 0),
        trim(query@).len() != 0 ==> match parse_outcome(query@) {
            ParseOutcome::Rejected(m) => r matches Err(e) && e@ == m,
            ParseOutcome::Accepted(exe, args, index) => r matches Ok(p) && {
                let dq = directory_query_of(args, index);
                &&& !p.show_history
                &&& opt_view(p.executable) == Some(exe)
                &&& opt_view(p.directory_query) == dq
                &&& opt_view(p.search_term) == (if dq is Some && is_safe_child(dq->0) {
                    dq
                } else {
                    None
                })
                &&& p.actions@.map_values(|a: CommandAction| action_view(a))
                    == spec_candidate_actions(exe, dq)
            },
        },
{
    let trimmed = trim_str(query);
    if trimmed.unicode_len() == 0 {
        return Ok(
            SearchPlan {
                executable: None,
                directory_query: None,
                search_term: None,
                actions: Vec::new(),
                show_history: true,
            },
        );
    }
    let parsed = parse(query)?;
    let directory_query = match parsed.directory_arg_index {
        Some(i) => if i < parsed.args.len() {
            Some(parsed.args[i].clone())
        } else {
            None
        },
        None => None,
    };
    proof {
        if let Some(i) = parsed.directory_arg_index {
            if i < parsed.args@.len() {
                assert(parsed.args.deep_view()[i as int] == parsed.args@[i as int]@);
            }
        }
    }
    let search_term = match &directory_query {
        Some(q) => if is_safe_child_name(q.as_str()) {
            Some(q.clone())
        } else {
            None
        },
        None => None,
    };
    let actions = match &directory_query {
        Some(q) => candidate_actions(&parsed, Some(q.as_str())),
        None => candidate_actions(&parsed, None),
    };
    Ok(
        SearchPlan {
            executable: Some(parsed.executable),
            directory_query,
            search_term,
            actions,
            show_history: false,
        },
    )
}

/// The history kind of a presentation: a listing or a text file.
pub open spec fn presentation_kind(output: PresentationOutput) -> HistoryActionKind {
    match output {
        PresentationOutput::Directory { .. } => HistoryActionKind::ListDirectory,
        PresentationOutput::TextFile { .. } => HistoryActionKind::ReadTextFile,
    }
}

/// Records a finished presentation: the active context becomes the one the
/// presentation leaves, and the history records its effective arguments and
/// inspected path. The output is handed back for display.
pub fn record_presentation(
    data: &mut AppData,
    query: &str,
    parsed: &ParsedCommand,
    result: PresentationResult,
    timestamp: u64,
    id: String,
) -> (r: PresentationOutput)
    requires
        use_count_has_room(old(data).directories@, Some(result.target_path@)),
    ensures
        r == result.output,
        final(data).history@.len() > 0,
        final(data)@.history[0].id == id,
        ({
            let item = final(data)@.history[0];
            &&& describes(
                item,
                query@,
                parsed@,
                result.effective_args@,
                Some(result.target_path),
                presentation_kind(result.output),
                timestamp,
            )
            &&& recorded(
                AppDataView { active_context: result.active_context, ..old(data)@ },
                final(data)@,
                item,
                Some(result.target_path@),
                timestamp,
            )
        }),
{
    let kind = match &result.output {
        PresentationOutput::Directory { .. } => HistoryActionKind::ListDirectory,
        PresentationOutput::TextFile { .. } => HistoryActionKind::ReadTextFile,
    };
    data.active_context = result.active_context;
    record_success(data, query, parsed, result.effective_args, Some(result.target_path), kind, timestamp, id);
    result.output
}

/// Records a `cd` to `next_context`: it becomes the active context and the
/// history records the change.
pub fn record_context_change(
    data: &mut AppData,
    query: &str,
    parsed: &ParsedCommand,
    next_context: String,
    timestamp: u64,
    id: String,
)
    requires
        use_count_has_room(old(data).directories@, Some(next_context@)),
    ensures
        final(data).history@.len() > 0,
        final(data)@.history[0].id == id,
        ({
            let item = final(data)@.history[0];
            &&& describes(
                item,
                query@,
                parsed@,
                seq![next_context],
                Some(next_context),
                HistoryActionKind::ChangeContext,
                timestamp,
            )
            &&& recorded(
                AppDataView { active_context: Some(next_context), ..old(data)@ },
                final(data)@,
                item,
                Some(next_context@),
                timestamp,
            )
        }),
{
    data.active_context = Some(next_context.clone());
    let mut args: Vec<String> = Vec::new();
    args.push(next_context.clone());
    assert(args@ =~= seq![next_context]);
    record_success(
        data,
        query,
        parsed,
        args,
        Some(next_context),
        HistoryActionKind::ChangeContext,
        timestamp,
        id,
    );
}

/// Records a started application: a project opened at `target_path` moves
/// the active context to `new_context` when that is given (the target was a
/// directory), and the history records an opened project or a plain launch.
pub fn record_launch(
    data: &mut AppData,
    query: &str,
    parsed: &ParsedCommand,
    args: Vec<String>,
    target_path: Option<String>,
    new_context: Option<String>,
    timestamp: u64,
    id: String,
)
    requires
        use_count_has_room(old(data).directories@, opt_view(target_path)),
    ensures
        final(data).history@.len() > 0,
        final(data)@.history[0].id == id,
        ({
            let item = final(data)@.history[0];
            let kind = if target_path is Some {
                HistoryActionKind::OpenProject
            } else {
                HistoryActionKind::LaunchCommand
            };
            let context = match new_context {
                Some(c) => Some(c),
                None => old(data)@.active_context,
            };
            &&& describes(item, query@, parsed@, args@, target_path, kind, timestamp)
            &&& recorded(
                AppDataView { active_context: context, ..old(data)@ },
                final(data)@,
                item,
                opt_view(target_path),
                timestamp,
            )
        }),
{
    if let Some(context) = new_context {
        data.active_context = Some(context);
    }
    let kind = if target_path.is_some() {
        HistoryActionKind::OpenProject
    } else {
        HistoryActionKind::LaunchCommand
    };
    record_success(data, query, parsed, args, target_path, kind, timestamp, id);
}

proof fn lemma_all_kept(s: Seq<HistoryItemView>, id: Seq<char>)
    requires
        forall|i: int| 0 <= i < s.len() ==> s[i].id@ != id,
    ensures
        without_item(s, id) == s,
    decreases s.len(),
{
    reveal(Seq::filter);
    if s.len() > 0 {
        lemma_all_kept(s.drop_last(), id);
        assert(s.drop_last().push(s.last()) =~= s);
    }
}

/// Deleting the item that a success has just recorded gives the history back
/// as it was, while fewer than `KEPT_HISTORY` items were kept and no other
/// item has its identifier.
pub proof fn lemma_delete_undoes_record(history: Seq<HistoryItemView>, item: HistoryItemView)
    requires
        history.len() < KEPT_HISTORY,
        forall|i: int| 0 <= i < history.len() ==> history[i].id@ != item.id@,
    ensures
        without_item(first_items(seq![item] + history, KEPT_HISTORY as int), item.id@) == history,
{
    let p = |h: HistoryItemView| h.id@ != item.id@;
    history.lemma_filter_prepend(item, p);
    lemma_all_kept(history, item.id@);
    assert(first_items(seq![item] + history, KEPT_HISTORY as int) == seq![item] + history);
    assert(Seq::<HistoryItemView>::empty() + history =~= history);
}

/// A successful use of a directory that the index holds counts one more use
/// of its first record with that path and remembers the time; no other record
/// changes.
pub proof fn lemma_success_counts_a_use(dirs: Seq<DirectoryRecord>, path: Seq<char>, j: int, ts: u64)
    requires
        first_with_path(dirs, path, j),
        dirs[j].use_count < u32::MAX,
    ensures
        used_directories(dirs, Some(path), ts).len() == dirs.len(),
        used_directories(dirs, Some(path), ts)[j].use_count == dirs[j].use_count + 1,
        used_directories(dirs, Some(path), ts)[j].last_used_at == Some(ts),
        used_directories(dirs, Some(path), ts)[j].path == dirs[j].path,
        forall|k: int| 0 <= k < dirs.len() && k != j ==> used_directories(dirs, Some(path), ts)[k] == dirs[k],
{
    let c = choose|c: int| first_with_path(dirs, path, c);
    assert(c == j) by {
        if c < j {
            assert(dirs[c].path@ != path);
        } else if c > j {
            assert(dirs[j].path@ != path);
        }
    }
}

/// The target of a candidate action — a safe, relative name without `..`
/// parts, joined to the (absolute) root of a configured enabled workspace —
/// lies inside that workspace.
pub proof fn lemma_action_target_inside_workspace(
    ws: Seq<Workspace>,
    roots: Seq<Option<String>>,
    root: Seq<char>,
    name: Seq<char>,
)
    requires
        is_configured_root(ws, roots, root),
        is_absolute(root),
        is_safe_child(name),
        !is_absolute(name),
        !named_parts(name).contains(".."@),
    ensures
        inside_enabled(ws, roots, join(root, name)),
{
    lemma_safe_child_stays_below_root(root, name);
    let i = choose|i: int| usable_root(ws, roots, i) && components(roots[i]->0@) == components(root);
    assert(root_holds(ws, roots, i, join(root, name)));
}

/// Every directory whose name does not begin with `.` and is none of
/// `node_modules`, `target`, `dist` and `build` is indexed at each depth from
/// 1 to the limit, and read further above the limit; one whose name begins
/// with `.` is never indexed.
pub proof fn lemma_plain_directories_are_indexed(depth: int, max_depth: int, name: Seq<char>)
    ensures
        1 <= depth <= max_depth && !(name.len() > 0 && name[0] == '.') && name != "node_modules"@
            && name != "target"@ && name != "dist"@ && name != "build"@ ==> spec_scan_step(
            depth,
            max_depth,
            true,
            name,
        ) == (if depth < max_depth {
            ScanStep::RecordAndDescend
        } else {
            ScanStep::Record
        }),
        name.len() > 0 && name[0] == '.' ==> spec_scan_step(depth, max_depth, true, name) == ScanStep::Skip,
{
    reveal_strlit(".");
    if starts_with(name, "."@) {
        assert(name.subrange(0, 1)[0] == name[0]);
    }
    if name.len() > 0 && name[0] == '.' {
        assert(name.subrange(0, 1) =~= "."@);
    }
}

} // verus!
