use quick_command::errors::{render_user_error, user_error};
use quick_command::index::rebuild_index;
use quick_command::models::{AppData, DirectoryRecord, CURRENT_DATA_VERSION};
use quick_command::resolver::{application_cli_paths, candidate_paths, not_found_message};
use quick_command::search::{subsequence_score, text_score};
use quick_command::store::{
    check_existing_before_save, classify_state, corrupt_backup_notice, corrupt_without_backup_notice,
    future_version_message, migrate, plan_load, recovered_notice, restored_notice, LoadPlan, StateRead,
    StateReadError, EXISTING_CORRUPT_MESSAGE, INVALID_VERSION_MESSAGE,
};
use quick_command::window::WindowBehavior;

fn record(path: &str, use_count: u32, last_used_at: Option<u64>) -> DirectoryRecord {
    let name = path.rsplit('/').next().unwrap_or(path).to_string();
    DirectoryRecord { path: path.to_string(), name, use_count, last_used_at }
}

fn data_with_version(version: u32) -> AppData {
    AppData { version, ..AppData::default() }
}

#[test]
fn production_message_omits_internal_detail() {
    let message = render_user_error("快捷键无效或已被占用", "AcceleratorParseError(KeyCode)", false);
    assert_eq!(message, "快捷键无效或已被占用");
    assert!(!message.contains("AcceleratorParseError"));
}

#[test]
fn debug_message_keeps_internal_detail() {
    let message = render_user_error("快捷键无效", "invalid key code", true);
    assert_eq!(message, "快捷键无效: invalid key code");
}

#[test]
fn user_errors_put_the_message_first() {
    assert_eq!(user_error("os error 2", "无法读取应用数据", true), "无法读取应用数据: os error 2");
    assert_eq!(user_error("os error 2", "无法读取应用数据", false), "无法读取应用数据");
}

#[test]
fn includes_application_bundle_cli_fallbacks() {
    let home = "/Users/example";
    let paths = candidate_paths("code", &vec![], Some(home));
    assert!(paths.contains(&"/Applications/Visual Studio Code.app/Contents/Resources/app/bin/code".to_string()));
    assert!(paths.contains(
        &"/Users/example/Applications/Visual Studio Code.app/Contents/Resources/app/bin/code".to_string()
    ));
}

#[test]
fn candidates_follow_path_then_home_then_system_then_bundles() {
    let paths = candidate_paths("idea", &vec!["/p1".to_string(), "/p2/".to_string()], Some("/h"));
    assert_eq!(
        paths,
        [
            "/p1/idea",
            "/p2/idea",
            "/h/.local/bin/idea",
            "/h/bin/idea",
            "/opt/homebrew/bin/idea",
            "/usr/local/bin/idea",
            "/usr/bin/idea",
            "/bin/idea",
            "/Applications/IntelliJ IDEA.app/Contents/MacOS/idea",
            "/h/Applications/IntelliJ IDEA.app/Contents/MacOS/idea",
            "/Applications/IntelliJ IDEA CE.app/Contents/MacOS/idea",
            "/h/Applications/IntelliJ IDEA CE.app/Contents/MacOS/idea",
        ]
    );
    assert_eq!(candidate_paths("ls", &vec![], None).len(), 4);
    assert!(application_cli_paths("open", Some("/h")).is_empty());
    assert_eq!(application_cli_paths("zed", None), ["/Applications/Zed.app/Contents/MacOS/zed"]);
    assert_eq!(
        not_found_message("zed"),
        "未找到命令 zed，请确认对应应用已安装，并已启用它的命令行工具"
    );
}

#[test]
fn exact_names_score_above_prefixes_and_fragments() {
    assert_eq!(text_score("example", "example", "/b/example"), Some(100));
    assert_eq!(text_score("example", "example-web", "/a/example-web"), Some(70));
    assert_eq!(text_score("EXAMPLE", "Example", "/b/Example"), Some(100));
    assert_eq!(text_score("web", "example-web", "/a/example-web"), Some(55));
    assert_eq!(text_score("xmpl", "example", "/a/example"), Some(38));
    assert_eq!(text_score("zzz", "example", "/a/example"), None);
}

#[test]
fn fuzzy_scores_count_skipped_characters() {
    assert_eq!(subsequence_score("", "anything"), Some(0));
    assert_eq!(subsequence_score("ab", "ab"), Some(40));
    assert_eq!(subsequence_score("ab", "xaxb"), Some(39));
    assert_eq!(subsequence_score("ab", "abzz"), Some(38));
    assert_eq!(subsequence_score("ab", "ba"), None);
    let long = format!("a{}b", "x".repeat(50));
    assert_eq!(subsequence_score("ab", &long), Some(10));
}

#[test]
fn migration_moves_version_one_forward_and_refuses_the_rest() {
    let mut old = data_with_version(1);
    assert!(migrate(&mut old).is_ok());
    assert_eq!(old.version, CURRENT_DATA_VERSION);
    assert!(migrate(&mut old).is_ok());
    assert_eq!(old.version, CURRENT_DATA_VERSION);

    let mut zero = data_with_version(0);
    assert_eq!(migrate(&mut zero).unwrap_err(), INVALID_VERSION_MESSAGE);
    assert_eq!(zero.version, 0);

    let mut future = data_with_version(7);
    assert_eq!(
        migrate(&mut future).unwrap_err(),
        "应用数据来自更新版本（数据版本 7），请升级 Quick Command 后再打开"
    );
    assert_eq!(future_version_message(123), "应用数据来自更新版本（数据版本 123），请升级 Quick Command 后再打开");
}

#[test]
fn state_documents_are_classified_by_version() {
    assert!(matches!(classify_state(None, Some(AppData::default())), Err(StateReadError::Invalid)));
    assert!(matches!(classify_state(Some(1 << 40), None), Err(StateReadError::Invalid)));
    assert!(matches!(classify_state(Some(3), None), Err(StateReadError::FutureVersion(3))));
    assert!(matches!(classify_state(Some(2), None), Err(StateReadError::Invalid)));
    let (data, changed) = classify_state(Some(1), Some(data_with_version(1))).unwrap();
    assert_eq!(data.version, 2);
    assert!(changed);
    let (_, unchanged) = classify_state(Some(2), Some(data_with_version(2))).unwrap();
    assert!(!unchanged);
    assert!(matches!(classify_state(Some(0), Some(data_with_version(0))), Err(StateReadError::Invalid)));
}

#[test]
fn loading_recovers_from_missing_or_corrupt_files() {
    let primary = data_with_version(2);
    assert!(matches!(
        plan_load(StateRead::Loaded(primary, true), StateRead::Missing, false),
        LoadPlan::UsePrimary(_, true)
    ));
    assert!(matches!(plan_load(StateRead::Missing, StateRead::Missing, false), LoadPlan::StartEmpty));
    assert!(matches!(
        plan_load(StateRead::Missing, StateRead::Loaded(data_with_version(2), false), false),
        LoadPlan::RestoreMissing(_)
    ));
    assert!(matches!(
        plan_load(StateRead::Missing, StateRead::Failed(StateReadError::Invalid), false),
        LoadPlan::ReplaceCorruptBackup
    ));
    assert!(matches!(
        plan_load(StateRead::Failed(StateReadError::Invalid), StateRead::Loaded(data_with_version(2), false), false),
        LoadPlan::RecoverFromBackup(_)
    ));
    assert!(matches!(
        plan_load(StateRead::Failed(StateReadError::Invalid), StateRead::Missing, false),
        LoadPlan::ReplaceCorruptPrimary
    ));
    match plan_load(StateRead::Failed(StateReadError::Io("denied".to_string())), StateRead::Missing, true) {
        LoadPlan::Fail(message) => assert_eq!(message, "无法读取应用数据: denied"),
        _ => panic!("expected a refusal"),
    }
    match plan_load(StateRead::Failed(StateReadError::FutureVersion(9)), StateRead::Missing, false) {
        LoadPlan::Fail(message) => assert!(message.contains("来自更新版本")),
        _ => panic!("expected a refusal"),
    }
    match plan_load(
        StateRead::Failed(StateReadError::Invalid),
        StateRead::Failed(StateReadError::Io("denied".to_string())),
        false,
    ) {
        LoadPlan::PreserveThenFail(message) => assert_eq!(message, "无法读取应用数据备份"),
        _ => panic!("expected preservation then a refusal"),
    }
    assert_eq!(restored_notice(), "主状态文件缺失，已从最近的有效备份恢复。");
    assert_eq!(
        recovered_notice("/d/state.corrupt-1.json"),
        "应用数据已损坏，原文件已保留为 /d/state.corrupt-1.json，并从最近备份恢复。"
    );
    assert!(corrupt_backup_notice("x").contains("应用数据备份已损坏"));
    assert!(corrupt_without_backup_notice("x").contains("没有有效备份"));
}

#[test]
fn saving_never_replaces_data_it_cannot_understand() {
    assert_eq!(check_existing_before_save(StateRead::Missing, false).unwrap(), false);
    assert_eq!(check_existing_before_save(StateRead::Loaded(AppData::default(), false), false).unwrap(), true);
    assert_eq!(
        check_existing_before_save(StateRead::Failed(StateReadError::Invalid), false).unwrap_err(),
        EXISTING_CORRUPT_MESSAGE
    );
    assert!(check_existing_before_save(StateRead::Failed(StateReadError::FutureVersion(5)), false).is_err());
    assert_eq!(
        check_existing_before_save(StateRead::Failed(StateReadError::Io("busy".to_string())), false).unwrap_err(),
        "无法读取现有应用数据"
    );
}

#[test]
fn rebuilt_index_is_sorted_unique_and_keeps_usage() {
    let scanned = vec![
        record("/w/b", 0, None),
        record("/w/a", 0, None),
        record("/w/b", 0, None),
        record("/w/c", 0, None),
    ];
    let previous = vec![record("/w/b", 2, Some(5)), record("/w/b", 4, Some(9)), record("/w/z", 8, Some(1))];
    let rebuilt = rebuild_index(&scanned, &previous);
    let paths: Vec<&str> = rebuilt.iter().map(|r| r.path.as_str()).collect();
    assert_eq!(paths, ["/w/a", "/w/b", "/w/c"]);
    assert_eq!(rebuilt[1].use_count, 4);
    assert_eq!(rebuilt[1].last_used_at, Some(9));
    assert_eq!(rebuilt[0].use_count, 0);
}

#[test]
fn window_behaviour_remembers_suspension() {
    let behavior = WindowBehavior::default();
    assert!(!behavior.auto_hide_suspended());
    behavior.set_auto_hide_suspended(true);
    assert!(behavior.auto_hide_suspended());
    behavior.set_auto_hide_suspended(false);
    assert!(!behavior.auto_hide_suspended());
}
