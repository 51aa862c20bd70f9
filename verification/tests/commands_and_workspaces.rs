use quick_command::commands::{
    action_target_name, candidate_actions, cd_candidate, confirmation_request, is_indexable_directory,
    is_safe_child_name, launch_arguments, mkdir_candidate, mkdir_confirmation, mkdir_name_and_parent,
    plan_search, record_action, record_context_change, record_created_directory, record_launch,
    missing_workspace_message, record_success, remove_history_item, route_command, scan_step, snapshot,
    CommandRoute, ScanStep, SCAN_DEPTH,
    ACTION_MISSING_NAME_MESSAGE, ACTION_NO_PATH_ARGUMENT_MESSAGE, ACTION_UNSAFE_NAME_MESSAGE,
    ACTION_UNSUPPORTED_MESSAGE, CD_MISSING_MESSAGE, CD_TOO_MANY_MESSAGE, CONFIRMATION_MISMATCH_MESSAGE,
    INVALID_DIRECTORY_ARGUMENT_MESSAGE, MKDIR_INVALID_NAME_MESSAGE, MKDIR_INVALID_REQUEST_MESSAGE,
    MKDIR_MISSING_MESSAGE, MKDIR_NO_PARENT_MESSAGE, MKDIR_TOO_MANY_MESSAGE,
};
use quick_command::models::{
    AppData, CommandActionKind, DirectoryRecord, HistoryAction, HistoryActionKind, HistoryItem,
    OperationKind, ParsedCommand, Settings, Workspace,
};
use quick_command::parser::parse;
use quick_command::workspace::{
    check_selected_workspace, choose_workspace, normalize_workspaces, normalized_context,
    retained_context, validate_target, CONTEXT_NOT_DIRECTORY_MESSAGE, NOT_CONFIGURED_WORKSPACE_MESSAGE,
    NO_WORKSPACE_FOR_DIRECTORY_MESSAGE, OUTSIDE_WORKSPACE_MESSAGE,
};

fn workspace(path: &str, enabled: bool) -> Workspace {
    Workspace { path: path.to_string(), enabled }
}

fn settings_with(workspaces: Vec<Workspace>) -> Settings {
    Settings { shortcut: String::new(), default_workspace: None, workspaces }
}

fn history_item(id: &str, executed_at: u64) -> HistoryItem {
    HistoryItem {
        id: id.to_string(),
        display_text: "ls".to_string(),
        executable: "ls".to_string(),
        args: vec![],
        target_path: None,
        action: None,
        executed_at,
    }
}

fn record(path: &str, name: &str, use_count: u32, last_used_at: Option<u64>) -> DirectoryRecord {
    DirectoryRecord { path: path.to_string(), name: name.to_string(), use_count, last_used_at }
}

#[test]
fn rejects_target_outside_workspace() {
    let settings = Settings { shortcut: String::new(), default_workspace: None, workspaces: vec![] };
    assert!(validate_target("/tmp", &Some("/tmp".to_string()), &settings, &vec![]).is_err());
}

#[test]
fn normalizes_and_deduplicates_workspace_paths() {
    let mut settings = Settings {
        shortcut: String::new(),
        default_workspace: None,
        workspaces: vec![workspace("/tmp", true), workspace("/private/tmp", true)],
    };

    normalize_workspaces(
        &mut settings,
        vec!["/private/tmp".to_string(), "/private/tmp".to_string()],
        None,
    );
    assert_eq!(settings.workspaces.len(), 1);
    assert_eq!(settings.default_workspace, None);
}

#[test]
fn code_plain_name_exposes_file_and_directory_actions() {
    let parsed = parse("code example").unwrap();
    let actions = candidate_actions(&parsed, Some("example"));
    assert_eq!(actions.len(), 2);
    assert_eq!(actions[0].kind, CommandActionKind::OpenFile);
    assert_eq!(actions[1].kind, CommandActionKind::CreateDirectory);
}

#[test]
fn code_explicit_relative_path_does_not_offer_workspace_actions() {
    let parsed = parse("code ./example").unwrap();
    assert!(candidate_actions(&parsed, Some("./example")).is_empty());
}

#[test]
fn explicit_paths_are_not_project_search_terms() {
    assert!(!is_safe_child_name("./example"));
    assert!(!is_safe_child_name("../example"));
    assert!(!is_safe_child_name("/tmp/example"));
    assert!(!is_safe_child_name("-a"));
    assert!(is_safe_child_name("example"));
}

#[test]
fn context_must_resolve_inside_an_enabled_workspace() {
    let settings = settings_with(vec![workspace("/tmp", true)]);
    let roots = vec![Some("/tmp".to_string())];
    assert!(normalized_context(Ok("/tmp".to_string()), true, &settings, &roots).is_ok());

    let disabled = settings_with(vec![workspace("/tmp", false)]);
    assert!(normalized_context(Ok("/tmp".to_string()), true, &disabled, &roots).is_err());
}

#[test]
fn deleting_history_preserves_directory_frecency() {
    let mut data = AppData {
        directories: vec![record("/tmp/example", "example", 7, Some(42))],
        history: vec![
            HistoryItem {
                id: "remove".into(),
                display_text: "code example".into(),
                executable: "code".into(),
                args: vec!["/tmp/example".into()],
                target_path: Some("/tmp/example".into()),
                action: None,
                executed_at: 42,
            },
            HistoryItem {
                id: "keep".into(),
                display_text: "ls".into(),
                executable: "ls".into(),
                args: vec!["/tmp".into()],
                target_path: Some("/tmp".into()),
                action: None,
                executed_at: 41,
            },
        ],
        ..AppData::default()
    };

    assert!(remove_history_item(&mut data, "remove"));
    assert_eq!(data.history.len(), 1);
    assert_eq!(data.history[0].id, "keep");
    assert_eq!(data.directories[0].use_count, 7);
    assert_eq!(data.directories[0].last_used_at, Some(42));
    assert!(!remove_history_item(&mut data, "missing"));
}

#[test]
fn context_errors_name_their_cause() {
    let settings = settings_with(vec![workspace("/work", true)]);
    let roots = vec![Some("/work".to_string())];
    assert_eq!(
        normalized_context(Ok("/work/a".to_string()), false, &settings, &roots).unwrap_err(),
        CONTEXT_NOT_DIRECTORY_MESSAGE
    );
    assert_eq!(
        normalized_context(Ok("/elsewhere".to_string()), true, &settings, &roots).unwrap_err(),
        OUTSIDE_WORKSPACE_MESSAGE
    );
    assert_eq!(
        normalized_context(Err("gone".to_string()), true, &settings, &roots).unwrap_err(),
        "gone"
    );
    assert_eq!(
        normalized_context(Ok("/work/a/b".to_string()), true, &settings, &roots).unwrap(),
        "/work/a/b"
    );
    // A root is compared by whole components: "/workshop" is not inside "/work".
    assert!(normalized_context(Ok("/workshop".to_string()), true, &settings, &roots).is_err());
    assert_eq!(
        validate_target("/missing", &None, &settings, &roots).unwrap_err(),
        "目录不存在: /missing"
    );
    assert!(validate_target("/work/x", &Some("/work/x".to_string()), &settings, &roots).is_ok());
}

#[test]
fn new_directories_belong_to_the_deepest_enabled_workspace() {
    let settings = settings_with(vec![
        workspace("/work", true),
        workspace("/work/team", true),
        workspace("/work/team/off", false),
    ]);
    let roots = vec![
        Some("/work".to_string()),
        Some("/work/team".to_string()),
        Some("/work/team/off".to_string()),
    ];
    assert_eq!(choose_workspace("/work/team/off", &settings, &roots).unwrap(), "/work/team");
    assert_eq!(choose_workspace("/work/other", &settings, &roots).unwrap(), "/work");
    assert_eq!(
        choose_workspace("/home", &settings, &roots).unwrap_err(),
        NO_WORKSPACE_FOR_DIRECTORY_MESSAGE
    );
}

#[test]
fn a_selected_workspace_must_be_a_configured_root() {
    let settings = settings_with(vec![workspace("/work", true), workspace("/old", false)]);
    let roots = vec![Some("/work".to_string()), Some("/old".to_string())];
    assert!(check_selected_workspace("/work", &settings, &roots).is_ok());
    assert_eq!(
        check_selected_workspace("/work/sub", &settings, &roots).unwrap_err(),
        NOT_CONFIGURED_WORKSPACE_MESSAGE
    );
    assert!(check_selected_workspace("/old", &settings, &roots).is_err());
}

#[test]
fn normalization_keeps_first_occurrences_and_a_listed_default() {
    let mut settings = Settings {
        shortcut: "Alt+Space".to_string(),
        default_workspace: Some("/b".to_string()),
        workspaces: vec![workspace("/a", true), workspace("/b", false), workspace("/a/.", false)],
    };
    normalize_workspaces(
        &mut settings,
        vec!["/a".to_string(), "/b".to_string(), "/a".to_string()],
        Some("/b".to_string()),
    );
    assert_eq!(settings.workspaces.len(), 2);
    assert_eq!(settings.workspaces[0].path, "/a");
    assert!(settings.workspaces[0].enabled);
    assert_eq!(settings.workspaces[1].path, "/b");
    assert!(!settings.workspaces[1].enabled);
    assert_eq!(settings.default_workspace, Some("/b".to_string()));
    assert_eq!(settings.shortcut, "Alt+Space");

    let mut unlisted = settings_with(vec![workspace("/a", true)]);
    normalize_workspaces(&mut unlisted, vec!["/a".to_string()], Some("/z".to_string()));
    assert_eq!(unlisted.default_workspace, None);
}

#[test]
fn snapshot_shows_the_latest_thirty_items() {
    let mut data = AppData::default();
    for i in 0..45u64 {
        data.history.push(history_item(&format!("h{i}"), i));
    }
    data.directories.push(record("/w/a", "a", 0, None));
    let state = snapshot(&data);
    assert_eq!(state.history.len(), 30);
    assert_eq!(state.history[0].id, "h0");
    assert_eq!(state.history[29].id, "h29");
    assert_eq!(state.indexed_directory_count, 1);
}

#[test]
fn a_success_counts_a_use_and_becomes_the_newest_history_item() {
    let mut data = AppData::default();
    data.directories.push(record("/w/a", "a", 3, None));
    data.directories.push(record("/w/b", "b", 0, None));
    for i in 0..200u64 {
        data.history.push(history_item(&format!("old{i}"), i));
    }
    let parsed = parse("code a").unwrap();
    record_success(
        &mut data,
        "code a",
        &parsed,
        vec!["/w/a".to_string()],
        Some("/w/a".to_string()),
        HistoryActionKind::OpenProject,
        1000,
        "fresh".to_string(),
    );
    assert_eq!(data.history.len(), 200);
    assert_eq!(data.history[0].id, "fresh");
    assert_eq!(data.history[0].display_text, "code a");
    assert_eq!(data.history[0].executable, "code");
    assert_eq!(data.history[0].executed_at, 1000);
    assert_eq!(data.history[0].action, Some(HistoryAction { kind: HistoryActionKind::OpenProject }));
    assert_eq!(data.history[1].id, "old0");
    assert_eq!(data.history[199].id, "old198");
    assert_eq!(data.directories[0].use_count, 4);
    assert_eq!(data.directories[0].last_used_at, Some(1000));
    assert_eq!(data.directories[1].use_count, 0);
}

#[test]
fn recorded_items_carry_the_given_identifier_and_time() {
    let mut data = AppData::default();
    let parsed = parse("ls").unwrap();
    record_success(&mut data, "ls", &parsed, vec![], None, HistoryActionKind::LaunchCommand, 5, "one".to_string());
    record_success(&mut data, "ls", &parsed, vec![], None, HistoryActionKind::LaunchCommand, 7, "two".to_string());
    assert_eq!(data.history.len(), 2);
    assert_eq!(data.history[0].id, "two");
    assert_eq!(data.history[0].executed_at, 7);
    assert_eq!(data.history[1].id, "one");
    assert_eq!(data.history[1].executed_at, 5);
}

#[test]
fn context_changes_and_launches_are_recorded() {
    let mut data = AppData::default();
    let cd = parse("cd child").unwrap();
    record_context_change(&mut data, "cd child", &cd, "/w/child".to_string(), 10, "c1".to_string());
    assert_eq!(data.active_context, Some("/w/child".to_string()));
    assert_eq!(data.history[0].args, ["/w/child"]);
    assert_eq!(data.history[0].action, Some(HistoryAction { kind: HistoryActionKind::ChangeContext }));

    let code = parse("code a").unwrap();
    record_launch(
        &mut data,
        "code a",
        &code,
        vec!["/w/a".to_string()],
        Some("/w/a".to_string()),
        Some("/w/a".to_string()),
        11,
        "c2".to_string(),
    );
    assert_eq!(data.active_context, Some("/w/a".to_string()));
    assert_eq!(data.history[0].action, Some(HistoryAction { kind: HistoryActionKind::OpenProject }));

    let open = parse("open").unwrap();
    record_launch(&mut data, "open", &open, vec![], None, None, 12, "c3".to_string());
    assert_eq!(data.history[0].id, "c3");
    assert_eq!(data.history[0].executed_at, 12);
    assert_eq!(data.active_context, Some("/w/a".to_string()));
    assert_eq!(data.history[0].action, Some(HistoryAction { kind: HistoryActionKind::LaunchCommand }));
    assert_eq!(data.history.len(), 3);
}

#[test]
fn launch_arguments_replace_only_the_directory_argument() {
    let parsed = parse("code example --new-window").unwrap();
    assert_eq!(launch_arguments(&parsed, Some("/w/example")).unwrap(), ["/w/example", "--new-window"]);
    assert_eq!(launch_arguments(&parsed, None).unwrap(), ["example", "--new-window"]);
    let broken = ParsedCommand {
        executable: "code".to_string(),
        args: vec![],
        directory_arg_index: Some(2),
    };
    assert_eq!(
        launch_arguments(&broken, Some("/w")).unwrap_err(),
        INVALID_DIRECTORY_ARGUMENT_MESSAGE
    );
}

#[test]
fn cd_candidates_follow_selection_then_absolute_then_context() {
    let context = Some("/w/ctx".to_string());
    assert_eq!(cd_candidate("x", Some("/w/picked"), &context), Some("/w/picked".to_string()));
    assert_eq!(cd_candidate("/abs", None, &context), Some("/abs".to_string()));
    assert_eq!(cd_candidate("child", None, &context), Some("/w/ctx/child".to_string()));
    assert_eq!(cd_candidate("child", None, &None), None);
}

#[test]
fn mkdir_requests_are_checked_before_the_filesystem() {
    let context = Some("/w".to_string());
    assert_eq!(mkdir_candidate("", &context).unwrap_err(), MKDIR_INVALID_REQUEST_MESSAGE);
    assert_eq!(mkdir_candidate("-p", &context).unwrap_err(), MKDIR_INVALID_REQUEST_MESSAGE);
    assert_eq!(mkdir_candidate("demo", &context).unwrap(), Some("/w/demo".to_string()));
    assert_eq!(mkdir_candidate("/x/demo", &None).unwrap(), Some("/x/demo".to_string()));
    assert_eq!(mkdir_candidate("demo", &None).unwrap(), None);

    assert_eq!(
        mkdir_name_and_parent("/w/demo").unwrap(),
        ("demo".to_string(), "/w".to_string())
    );
    assert_eq!(mkdir_name_and_parent("/w/..").unwrap_err(), MKDIR_INVALID_NAME_MESSAGE);
    assert_eq!(mkdir_name_and_parent("/").unwrap_err(), MKDIR_INVALID_NAME_MESSAGE);
    assert_eq!(mkdir_name_and_parent("demo").unwrap(), ("demo".to_string(), String::new()));
    let _ = MKDIR_NO_PARENT_MESSAGE;

    let confirmation = mkdir_confirmation("demo", "/w/demo".to_string(), "/w".to_string());
    assert_eq!(confirmation.kind, OperationKind::CreateDirectory);
    assert_eq!(confirmation.title, "创建目录 demo");
    assert_eq!(confirmation.target_path, "/w/demo");
    assert_eq!(confirmation.workspace_path, "/w");
}

#[test]
fn commands_are_routed_by_their_definition() {
    assert!(matches!(route_command(&parse("ll").unwrap()).unwrap(), CommandRoute::Present));
    assert!(matches!(route_command(&parse("code a").unwrap()).unwrap(), CommandRoute::Launch));
    match route_command(&parse("cd child").unwrap()).unwrap() {
        CommandRoute::ChangeDirectory(path) => assert_eq!(path, "child"),
        other => panic!("unexpected route {other:?}"),
    }
    match route_command(&parse("mkdir demo").unwrap()).unwrap() {
        CommandRoute::CreateDirectory(path) => assert_eq!(path, "demo"),
        other => panic!("unexpected route {other:?}"),
    }
    assert_eq!(route_command(&parse("cd").unwrap()).unwrap_err(), CD_MISSING_MESSAGE);
    assert_eq!(route_command(&parse("cd a b").unwrap()).unwrap_err(), CD_TOO_MANY_MESSAGE);
    assert_eq!(route_command(&parse("mkdir").unwrap()).unwrap_err(), MKDIR_MISSING_MESSAGE);
    assert_eq!(route_command(&parse("mkdir a b").unwrap()).unwrap_err(), MKDIR_TOO_MANY_MESSAGE);
}

#[test]
fn candidate_actions_need_code_and_a_safe_name() {
    assert_eq!(action_target_name(&parse("open a").unwrap()).unwrap_err(), ACTION_UNSUPPORTED_MESSAGE);
    assert_eq!(action_target_name(&parse("code").unwrap()).unwrap_err(), ACTION_NO_PATH_ARGUMENT_MESSAGE);
    assert_eq!(action_target_name(&parse("code ../a").unwrap()).unwrap_err(), ACTION_UNSAFE_NAME_MESSAGE);
    assert_eq!(action_target_name(&parse("code demo").unwrap()).unwrap(), "demo");
    let broken = ParsedCommand {
        executable: "code".to_string(),
        args: vec![],
        directory_arg_index: Some(0),
    };
    assert_eq!(action_target_name(&broken).unwrap_err(), ACTION_MISSING_NAME_MESSAGE);
    assert!(candidate_actions(&parse("open a").unwrap(), Some("a")).is_empty());
    assert!(candidate_actions(&parse("code a").unwrap(), None).is_empty());
}

#[test]
fn confirmations_must_match_the_query() {
    let mkdir = parse("mkdir demo").unwrap();
    assert_eq!(confirmation_request(&mkdir, OperationKind::CreateDirectory).unwrap(), "demo");
    assert_eq!(
        confirmation_request(&parse("cd demo").unwrap(), OperationKind::CreateDirectory).unwrap_err(),
        CONFIRMATION_MISMATCH_MESSAGE
    );
    assert_eq!(
        confirmation_request(&parse("mkdir").unwrap(), OperationKind::CreateDirectory).unwrap_err(),
        MKDIR_TOO_MANY_MESSAGE
    );
}

#[test]
fn created_directories_join_the_index_once() {
    let mut data = AppData::default();
    let parsed = parse("mkdir demo").unwrap();
    record_created_directory(&mut data, "/w/demo".to_string(), "demo".to_string(), "mkdir demo", &parsed, 20, "m1".to_string());
    assert_eq!(data.directories.len(), 1);
    assert_eq!(data.directories[0].path, "/w/demo");
    assert_eq!(data.directories[0].last_used_at, Some(20));
    assert_eq!(data.directories[0].use_count, 1);
    record_created_directory(&mut data, "/w/demo".to_string(), "demo".to_string(), "mkdir demo", &parsed, 21, "m2".to_string());
    assert_eq!(data.directories.len(), 1);
    assert_eq!(data.directories[0].use_count, 2);
    assert_eq!(data.history.len(), 2);
    assert_eq!(data.history[0].action, Some(HistoryAction { kind: HistoryActionKind::CreateDirectory }));
}

#[test]
fn actions_move_the_context_and_record_their_kind() {
    let parsed = parse("code demo").unwrap();
    let mut data = AppData::default();
    record_action(
        &mut data,
        CommandActionKind::OpenFile,
        "/w".to_string(),
        "/w/demo".to_string(),
        "demo".to_string(),
        "code demo",
        &parsed,
        vec!["/w/demo".to_string()],
        30,
        "a1".to_string(),
    );
    assert_eq!(data.active_context, Some("/w".to_string()));
    assert!(data.directories.is_empty());
    assert_eq!(data.history[0].action, Some(HistoryAction { kind: HistoryActionKind::OpenFile }));

    record_action(
        &mut data,
        CommandActionKind::CreateDirectory,
        "/w".to_string(),
        "/w/demo".to_string(),
        "demo".to_string(),
        "code demo",
        &parsed,
        vec!["/w/demo".to_string()],
        30,
        "a1".to_string(),
    );
    assert_eq!(data.active_context, Some("/w/demo".to_string()));
    assert_eq!(data.directories.len(), 1);
    assert_eq!(data.directories[0].use_count, 1);
    assert_eq!(
        data.history[0].action,
        Some(HistoryAction { kind: HistoryActionKind::CreateDirectoryAndOpen })
    );
}

#[test]
fn search_plans_show_history_or_a_safe_search_term() {
    let empty = plan_search("   ").unwrap();
    assert!(empty.show_history);
    assert!(empty.executable.is_none());

    let plan = plan_search("code example").unwrap();
    assert!(!plan.show_history);
    assert_eq!(plan.executable, Some("code".to_string()));
    assert_eq!(plan.directory_query, Some("example".to_string()));
    assert_eq!(plan.search_term, Some("example".to_string()));
    assert_eq!(plan.actions.len(), 2);
    assert_eq!(plan.actions[0].id, "open-file");

    let explicit = plan_search("code ./example").unwrap();
    assert_eq!(explicit.directory_query, Some("./example".to_string()));
    assert_eq!(explicit.search_term, None);
    assert!(explicit.actions.is_empty());

    assert!(plan_search("custom-command value").unwrap_err().contains("只执行已登记的安全命令"));
}

#[test]
fn the_index_skips_hidden_and_build_directories() {
    assert!(is_indexable_directory("project"));
    for skipped in [".git", "node_modules", "target", "dist", "build"] {
        assert!(!is_indexable_directory(skipped));
    }
}

#[test]
fn the_context_is_dropped_when_its_workspace_goes() {
    let settings = settings_with(vec![workspace("/work", true)]);
    let roots = vec![Some("/work".to_string())];
    let context = Some("/work/app".to_string());
    assert_eq!(
        retained_context(context.clone(), Ok("/work/app".to_string()), true, &settings, &roots),
        context
    );
    let disabled = settings_with(vec![workspace("/work", false)]);
    assert_eq!(retained_context(context.clone(), Ok("/work/app".to_string()), true, &disabled, &roots), None);
    assert_eq!(retained_context(context.clone(), Err("gone".to_string()), false, &settings, &roots), None);
    assert_eq!(retained_context(None, Err(String::new()), false, &settings, &roots), None);
}

#[test]
fn the_scan_indexes_directories_down_to_its_depth() {
    assert_eq!(SCAN_DEPTH, 4);
    assert_eq!(scan_step(1, SCAN_DEPTH, true, "app"), ScanStep::RecordAndDescend);
    assert_eq!(scan_step(3, SCAN_DEPTH, true, "app"), ScanStep::RecordAndDescend);
    assert_eq!(scan_step(4, SCAN_DEPTH, true, "app"), ScanStep::Record);
    assert_eq!(scan_step(5, SCAN_DEPTH, true, "app"), ScanStep::Skip);
    assert_eq!(scan_step(1, SCAN_DEPTH, false, "file.txt"), ScanStep::Skip);
    assert_eq!(scan_step(1, SCAN_DEPTH, true, ".git"), ScanStep::Skip);
    assert_eq!(scan_step(2, SCAN_DEPTH, true, "node_modules"), ScanStep::Skip);
    assert_eq!(scan_step(1, 0, true, "app"), ScanStep::Skip);
    assert_eq!(missing_workspace_message("/gone"), "工作区不存在: /gone");
}
