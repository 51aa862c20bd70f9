use quick_command::commands::record_presentation;
use quick_command::models::{
    AppData, HistoryAction, HistoryActionKind, ParsedCommand, PresentationEntryKind, PresentationOutput,
    Settings, Workspace,
};
use quick_command::parser::parse;
use quick_command::presentation::{
    check_text_size, count_lines, directory_listing, entry_order, execute, language_name,
    parse_cat_argument, parse_list_arguments, presentation_candidate, text_file_presentation,
    validate_allowed_path, ItemMetadata, ListedItem, PresentationResolution, PresentationTarget,
    BINARY_MESSAGE, CAT_MISSING_MESSAGE, CAT_TOO_MANY_MESSAGE, MAX_DIRECTORY_ENTRIES,
    NOT_UTF8_MESSAGE, ONE_DIRECTORY_MESSAGE, PATH_OUTSIDE_WORKSPACE_MESSAGE, TOO_LARGE_MESSAGE,
    TOO_MANY_LINES_MESSAGE, UNSUPPORTED_PRESENTATION_MESSAGE,
};

fn parsed(executable: &str, args: &[&str]) -> ParsedCommand {
    ParsedCommand {
        executable: executable.to_string(),
        args: args.iter().map(|a| a.to_string()).collect(),
        directory_arg_index: None,
    }
}

fn dir() -> ItemMetadata {
    ItemMetadata { is_symlink: false, is_dir: true, is_file: false, len: 96, modified_at: Some(10) }
}

fn file(len: u64) -> ItemMetadata {
    ItemMetadata { is_symlink: false, is_dir: false, is_file: true, len, modified_at: Some(20) }
}

fn item(root: &str, name: &str, metadata: Option<ItemMetadata>) -> ListedItem {
    ListedItem { name: name.to_string(), path: format!("{root}/{name}"), metadata }
}

#[test]
fn ll_maps_to_detailed_hidden_listing() {
    let parsed = ParsedCommand { executable: "ll".into(), args: vec![], directory_arg_index: None };
    assert_eq!(parse_list_arguments(&parsed).unwrap(), (true, true, None));
}

#[test]
fn relative_paths_request_context_when_none_is_active() {
    let mut data = AppData::default();
    data.active_context = None;
    let parsed = ParsedCommand {
        executable: "cat".into(),
        args: vec!["README.md".into()],
        directory_arg_index: None,
    };
    assert!(matches!(execute(&parsed, &data).unwrap(), PresentationResolution::NeedsContext));
}

#[test]
fn directory_output_is_structured_and_sorted() {
    let root = "/w/root";
    let items = vec![
        item(root, "file.txt", Some(file(5))),
        item(root, ".hidden", None),
        item(root, "folder", Some(dir())),
    ];
    let result = directory_listing(root.to_string(), false, false, &items);
    let PresentationOutput::Directory { entries, hidden_count, .. } = result.output else {
        panic!("expected directory output");
    };
    assert_eq!(entries.len(), 2);
    assert_eq!(entries[0].kind, PresentationEntryKind::Directory);
    assert_eq!(hidden_count, 1);
}

#[test]
fn cat_returns_text_metadata_instead_of_terminal_output() {
    let content = "fn main() {}\n";
    let result =
        text_file_presentation("/w/root/hello.rs".to_string(), content.len() as u64, content.as_bytes().to_vec())
            .unwrap();
    let PresentationOutput::TextFile { content, language, line_count, .. } = result.output else {
        panic!("expected text output");
    };
    assert_eq!(content, "fn main() {}\n");
    assert_eq!(language.as_deref(), Some("Rust"));
    assert_eq!(line_count, 1);
}

#[test]
fn list_arguments_accept_only_a_and_l() {
    assert_eq!(parse_list_arguments(&parsed("ls", &[])).unwrap(), (false, false, None));
    assert_eq!(parse_list_arguments(&parsed("ls", &["-al"])).unwrap(), (true, true, None));
    assert_eq!(parse_list_arguments(&parsed("ls", &["-l", "src"])).unwrap(), (false, true, Some("src".to_string())));
    assert_eq!(parse_list_arguments(&parsed("ls", &["--", "-a"])).unwrap(), (false, false, Some("-a".to_string())));
    assert_eq!(parse_list_arguments(&parsed("ls", &["-"])).unwrap(), (false, false, Some("-".to_string())));
    assert_eq!(parse_list_arguments(&parsed("ls", &["-ax"])).unwrap_err(), "暂不支持 ls -x，当前支持 -a 和 -l");
    assert_eq!(parse_list_arguments(&parsed("ls", &["a", "b"])).unwrap_err(), ONE_DIRECTORY_MESSAGE);
}

#[test]
fn ll_is_ls_with_all_and_long() {
    for args in [vec![], vec!["src"], vec!["-l", "x"]] {
        let ll = parse_list_arguments(&parsed("ll", &args)).unwrap();
        let mut with_flags = vec!["-al"];
        with_flags.extend(args.iter());
        let ls = parse_list_arguments(&parsed("ls", &with_flags)).unwrap();
        assert_eq!(ll, ls);
    }
}

#[test]
fn cat_takes_one_path() {
    assert_eq!(parse_cat_argument(&vec!["a.txt".to_string()]).unwrap(), "a.txt");
    assert_eq!(parse_cat_argument(&vec!["--".to_string(), "-a".to_string()]).unwrap(), "-a");
    assert_eq!(parse_cat_argument(&vec![]).unwrap_err(), CAT_MISSING_MESSAGE);
    assert_eq!(parse_cat_argument(&vec!["-n".to_string()]).unwrap_err(), CAT_TOO_MANY_MESSAGE);
    assert_eq!(
        parse_cat_argument(&vec!["a".to_string(), "b".to_string()]).unwrap_err(),
        CAT_TOO_MANY_MESSAGE
    );
}

#[test]
fn presentation_paths_are_placed_in_the_context() {
    let context = Some("/w/ctx".to_string());
    assert_eq!(presentation_candidate(Some("a.txt"), &context), Some("/w/ctx/a.txt".to_string()));
    assert_eq!(presentation_candidate(Some("/abs"), &None), Some("/abs".to_string()));
    assert_eq!(presentation_candidate(None, &context), Some("/w/ctx".to_string()));
    assert_eq!(presentation_candidate(None, &None), None);

    let mut data = AppData::default();
    data.active_context = context;
    match execute(&parsed("ll", &["sub"]), &data).unwrap() {
        PresentationResolution::Inspect(PresentationTarget::Listing { show_hidden, detailed, path }) => {
            assert!(show_hidden && detailed);
            assert_eq!(path, "/w/ctx/sub");
        }
        other => panic!("unexpected {other:?}"),
    }
    match execute(&parsed("cat", &["a.txt"]), &data).unwrap() {
        PresentationResolution::Inspect(PresentationTarget::TextFile { path }) => {
            assert_eq!(path, "/w/ctx/a.txt")
        }
        other => panic!("unexpected {other:?}"),
    }
    assert_eq!(execute(&parsed("code", &[]), &data).unwrap_err(), UNSUPPORTED_PRESENTATION_MESSAGE);
}

#[test]
fn inspected_paths_must_be_inside_an_enabled_workspace() {
    let settings = Settings {
        shortcut: String::new(),
        default_workspace: None,
        workspaces: vec![Workspace { path: "/w".to_string(), enabled: true }],
    };
    let roots = vec![Some("/w".to_string())];
    assert!(validate_allowed_path("/w/a", &settings, &roots).is_ok());
    assert_eq!(
        validate_allowed_path("/x/a", &settings, &roots).unwrap_err(),
        PATH_OUTSIDE_WORKSPACE_MESSAGE
    );
    assert!(validate_allowed_path("/w/a", &settings, &vec![None]).is_err());
}

#[test]
fn listings_order_kinds_then_names_and_count_entries() {
    let root = "/w";
    let link = ItemMetadata { is_symlink: true, is_dir: false, is_file: false, len: 1, modified_at: None };
    let items = vec![
        item(root, "b.txt", Some(file(3))),
        item(root, "Zeta", Some(dir())),
        item(root, "link", Some(link)),
        item(root, "alpha", Some(dir())),
        item(root, ".env", Some(file(9))),
        item(root, "A.txt", Some(file(1))),
        item(root, "a.txt", Some(file(2))),
    ];
    let result = directory_listing(root.to_string(), true, true, &items);
    assert_eq!(result.effective_args, ["-al", "/w"]);
    assert_eq!(result.target_path, "/w");
    assert_eq!(result.active_context, Some("/w".to_string()));
    let PresentationOutput::Directory {
        path,
        entries,
        directory_count,
        file_count,
        hidden_count,
        detailed,
        truncated,
    } = result.output
    else {
        panic!("expected directory output");
    };
    let names: Vec<&str> = entries.iter().map(|e| e.name.as_str()).collect();
    assert_eq!(names, ["alpha", "Zeta", ".env", "A.txt", "a.txt", "b.txt", "link"]);
    assert_eq!(path, "/w");
    assert_eq!(directory_count, 2);
    assert_eq!(file_count, 4);
    assert_eq!(hidden_count, 1);
    assert!(detailed);
    assert!(!truncated);
    assert_eq!(entries[2].size, Some(9));
    assert!(entries[2].hidden);
    for entry in &entries {
        assert_eq!(entry.size.is_some(), entry.kind == PresentationEntryKind::File);
    }
    assert_eq!(entries[0].size, None);
    assert_eq!(entries[6].kind, PresentationEntryKind::Symlink);
    assert_eq!(entries[6].modified_at, None);
}

#[test]
fn listings_keep_at_most_five_hundred_entries() {
    let items: Vec<ListedItem> =
        (0..(MAX_DIRECTORY_ENTRIES + 3)).map(|i| item("/w", &format!("f{i:04}"), Some(file(1)))).collect();
    let result = directory_listing("/w".to_string(), false, false, &items);
    assert_eq!(result.effective_args, ["/w"]);
    let PresentationOutput::Directory { entries, file_count, truncated, .. } = result.output else {
        panic!("expected directory output");
    };
    assert_eq!(entries.len(), MAX_DIRECTORY_ENTRIES);
    assert_eq!(file_count, MAX_DIRECTORY_ENTRIES + 3);
    assert!(truncated);
    assert_eq!(entries[0].name, "f0000");
    assert_eq!(entries[499].name, "f0499");

    let flags_only = directory_listing("/w".to_string(), true, false, &vec![]);
    assert_eq!(flags_only.effective_args, ["-a", "/w"]);
    let long_only = directory_listing("/w".to_string(), false, true, &vec![]);
    assert_eq!(long_only.effective_args, ["-l", "/w"]);
}

#[test]
fn text_files_are_refused_for_each_limit() {
    let path = "/w/a.txt".to_string();
    assert!(check_text_size(262144).is_ok());
    assert_eq!(check_text_size(262145).unwrap_err(), TOO_LARGE_MESSAGE);
    assert_eq!(
        text_file_presentation(path.clone(), 262145, b"x".to_vec()).unwrap_err(),
        TOO_LARGE_MESSAGE
    );
    assert_eq!(
        text_file_presentation(path.clone(), 3, vec![b'a', 0, b'b']).unwrap_err(),
        BINARY_MESSAGE
    );
    assert_eq!(
        text_file_presentation(path.clone(), 2, vec![0xc3, 0x28]).unwrap_err(),
        NOT_UTF8_MESSAGE
    );
    let many = "x\n".repeat(5001);
    assert_eq!(
        text_file_presentation(path.clone(), many.len() as u64, many.into_bytes()).unwrap_err(),
        TOO_MANY_LINES_MESSAGE
    );
    let enough = "x\n".repeat(5000);
    assert!(text_file_presentation(path, enough.len() as u64, enough.into_bytes()).is_ok());
}

#[test]
fn text_files_carry_name_language_and_context() {
    let result = text_file_presentation("/w/docs/Notes.MD".to_string(), 5, "é\r\nb".as_bytes().to_vec()).unwrap();
    assert_eq!(result.effective_args, ["/w/docs/Notes.MD"]);
    assert_eq!(result.active_context, Some("/w/docs".to_string()));
    let PresentationOutput::TextFile { path, name, content, size, line_count, language } = result.output else {
        panic!("expected text output");
    };
    assert_eq!(path, "/w/docs/Notes.MD");
    assert_eq!(name, "Notes.MD");
    assert_eq!(content, "é\r\nb");
    assert_eq!(size, 5);
    assert_eq!(line_count, 2);
    assert_eq!(language.as_deref(), Some("Markdown"));

    let plain = text_file_presentation("/w/Makefile".to_string(), 0, vec![]).unwrap();
    let PresentationOutput::TextFile { line_count, language, .. } = plain.output else {
        panic!("expected text output");
    };
    assert_eq!(line_count, 0);
    assert_eq!(language, None);
}

#[test]
fn lines_are_counted_as_str_lines_counts_them() {
    for text in ["", "a", "a\n", "a\nb", "a\n\n", "\n", "a\r\nb\r\n", "x\ry"] {
        let expected = if text.is_empty() { 0 } else { text.lines().count() };
        assert_eq!(count_lines(text), expected, "{text:?}");
    }
}

#[test]
fn languages_are_named_from_extensions() {
    assert_eq!(language_name("RS"), "Rust");
    assert_eq!(language_name("tsx"), "TypeScript");
    assert_eq!(language_name("jsx"), "JavaScript");
    assert_eq!(language_name("json"), "JSON");
    assert_eq!(language_name("toml"), "TOML");
    assert_eq!(language_name("yaml"), "YAML");
    assert_eq!(language_name("css"), "CSS");
    assert_eq!(language_name("html"), "HTML");
    assert_eq!(language_name("zsh"), "Shell");
    assert_eq!(language_name("py"), "Python");
    assert_eq!(language_name("Go"), "go");
    assert_eq!(entry_order(PresentationEntryKind::Directory), 0);
    assert_eq!(entry_order(PresentationEntryKind::Other), 3);
}

#[test]
fn presentations_are_recorded_in_history() {
    let mut data = AppData::default();
    let query = parse("ls").unwrap();
    let result = directory_listing("/w".to_string(), false, false, &vec![]);
    let output = record_presentation(&mut data, "ls", &query, result, 40, "p1".to_string());
    assert!(matches!(output, PresentationOutput::Directory { .. }));
    assert_eq!(data.active_context, Some("/w".to_string()));
    assert_eq!(data.history[0].args, ["/w"]);
    assert_eq!(data.history[0].target_path, Some("/w".to_string()));
    assert_eq!(data.history[0].action, Some(HistoryAction { kind: HistoryActionKind::ListDirectory }));

    let text = text_file_presentation("/w/a.rs".to_string(), 1, b"x".to_vec()).unwrap();
    let cat = parse("cat a.rs").unwrap();
    record_presentation(&mut data, "cat a.rs", &cat, text, 41, "p2".to_string());
    assert_eq!(data.history[0].action, Some(HistoryAction { kind: HistoryActionKind::ReadTextFile }));
    assert_eq!(data.history.len(), 2);
}
