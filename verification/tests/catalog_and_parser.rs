use quick_command::catalog::{
    definition_for, is_known_command, CommandCategory, ContextRequirement, ExecutionMode, PathIntent,
    RiskLevel, SuccessBehavior,
};
use quick_command::parser::{
    parse, parse_split_words, EMPTY_COMMAND_MESSAGE, SHELL_SYNTAX_MESSAGE, UNBALANCED_QUOTE_MESSAGE,
    UNKNOWN_COMMAND_MESSAGE,
};

#[test]
fn code_preserves_file_or_directory_intent() {
    let definition = definition_for("code");
    assert_eq!(definition.path_intent, PathIntent::FileOrDirectory);
    assert!(definition.project_search);
    assert_eq!(definition.success_behavior, SuccessBehavior::Hide);
}

#[test]
fn shell_builtins_and_aliases_use_explicit_internal_rules() {
    let cd = definition_for("cd");
    assert_eq!(cd.execution_mode, ExecutionMode::Internal);
    assert_eq!(cd.success_behavior, SuccessBehavior::UpdateContext);

    let ll = definition_for("ll");
    assert_eq!(ll.mapped_executable, "ls");
    assert_eq!(ll.injected_args, &["-al"]);
    assert_eq!(ll.execution_mode, ExecutionMode::Capture);
}

#[test]
fn unknown_commands_are_not_in_the_trusted_catalog() {
    assert!(!is_known_command("custom-command"));
    let definition = definition_for("custom-command");
    assert_eq!(definition.category, CommandCategory::Raw);
    assert_eq!(definition.context_requirement, ContextRequirement::NoContext);
    assert!(!definition.project_search);
}

#[test]
fn every_catalog_command_is_known_and_names_itself() {
    for name in ["code", "cursor", "idea", "webstorm", "zed", "open", "ls", "ll", "cat", "cd", "mkdir"] {
        assert!(is_known_command(name), "{name}");
        assert_eq!(definition_for(name).executable, name);
    }
    assert!(!is_known_command("rm"));
    assert!(!is_known_command("Code"));
    assert!(!is_known_command(""));
}

#[test]
fn mkdir_requires_confirmation_and_cat_has_no_path_search() {
    let mkdir = definition_for("mkdir");
    assert_eq!(mkdir.risk_level, RiskLevel::Confirm);
    assert_eq!(mkdir.execution_mode, ExecutionMode::Internal);
    let cat = definition_for("cat");
    assert_eq!(cat.execution_mode, ExecutionMode::Capture);
    assert!(!cat.project_search);
    let ls = definition_for("ls");
    assert!(ls.injected_args.is_empty());
    assert_eq!(ls.mapped_executable, "ls");
}

#[test]
fn parses_quoted_argument() {
    let value = parse("code \"my project\"").unwrap();
    assert_eq!(value.args, ["my project"]);
}

#[test]
fn rejects_shell_operators() {
    assert!(parse("code foo && rm bar").is_err());
    assert!(parse("echo $(whoami)").is_err());
}

#[test]
fn marks_known_directory_command() {
    assert_eq!(parse("code example").unwrap().directory_arg_index, Some(0));
}

#[test]
fn each_parse_error_has_its_message() {
    assert_eq!(parse("   ").unwrap_err(), EMPTY_COMMAND_MESSAGE);
    assert_eq!(parse("ls | cat").unwrap_err(), SHELL_SYNTAX_MESSAGE);
    assert_eq!(parse("cat a > b").unwrap_err(), SHELL_SYNTAX_MESSAGE);
    assert_eq!(parse("cd x; ls").unwrap_err(), SHELL_SYNTAX_MESSAGE);
    assert_eq!(parse("code `x`").unwrap_err(), SHELL_SYNTAX_MESSAGE);
    assert_eq!(parse("code \"open").unwrap_err(), UNBALANCED_QUOTE_MESSAGE);
    let unknown = parse("custom-command value").unwrap_err();
    assert_eq!(unknown, UNKNOWN_COMMAND_MESSAGE);
    assert!(unknown.contains("只执行已登记的安全命令"));
}

#[test]
fn commands_without_project_search_have_no_directory_argument() {
    let listed = parse("ls src").unwrap();
    assert_eq!(listed.executable, "ls");
    assert_eq!(listed.args, ["src"]);
    assert_eq!(listed.directory_arg_index, None);
    let bare = parse("  code  ").unwrap();
    assert_eq!(bare.args.len(), 0);
    assert_eq!(bare.directory_arg_index, None);
}

#[test]
fn split_words_are_checked_against_the_catalog() {
    assert_eq!(parse_split_words(None).unwrap_err(), UNBALANCED_QUOTE_MESSAGE);
    assert_eq!(parse_split_words(Some(vec![])).unwrap_err(), EMPTY_COMMAND_MESSAGE);
    let parsed = parse_split_words(Some(vec!["cursor".to_string(), "a b".to_string()])).unwrap();
    assert_eq!(parsed.executable, "cursor");
    assert_eq!(parsed.args, ["a b"]);
    assert_eq!(parsed.directory_arg_index, Some(0));
}
