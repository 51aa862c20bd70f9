//! `ls`, `ll` and `cat` inside the launcher: their arguments, the path they
//! inspect, and the typed output built from what the filesystem reported.

use vstd::prelude::*;
use crate::models::{AppData, ParsedCommand, PresentationEntry, PresentationEntryKind, PresentationOutput, Settings};
use crate::order::{compare_chars, lemma_lex_asymmetric, lemma_lex_irreflexive, lemma_lex_total, lemma_lex_transitive, lex_lt};
use crate::text::{to_lowercase, unicode_lowercase};
use crate::paths::{extension_of, extension_of_name, file_name, file_name_of, is_absolute, is_absolute_path, join, parent, parent_of, path_join};
use crate::text::{ascii_lower, ascii_lowercase, chars_of, push_char, starts_with, str_eq, utf8_string};
use crate::workspace::{inside_enabled, inside_enabled_workspace};

verus! {

pub const UNSUPPORTED_PRESENTATION_MESSAGE: &'static str = "当前命令不支持应用内展示";

pub const ONE_DIRECTORY_MESSAGE: &'static str = "一次只能查看一个目录";

pub const CAT_MISSING_MESSAGE: &'static str = "请输入要查看的文本文件路径";

pub const CAT_TOO_MANY_MESSAGE: &'static str = "cat 当前只支持查看一个文本文件";

pub const PATH_OUTSIDE_WORKSPACE_MESSAGE: &'static str = "目标路径不在已启用的工作区中";

/// The message for an `ls` option other than `-a` and `-l`.
pub open spec fn unsupported_option_text(option: char) -> Seq<char> {
    "暂不支持 ls -"@.push(option) + "，当前支持 -a 和 -l"@
}

/// The options and path of an `ls` or `ll` command as its arguments are read.
pub struct ListState {
    pub show_hidden: bool,
    pub detailed: bool,
    pub path: Option<Seq<char>>,
    pub options_finished: bool,
}

/// The option letters `options`, applied in order.
pub open spec fn apply_options(show_hidden: bool, detailed: bool, options: Seq<char>) -> Result<
    (bool, bool),
    Seq<char>,
>
    decreases options.len(),
{
    if options.len() == 0 {
        Ok((show_hidden, detailed))
    } else if options[0] == 'a' {
        apply_options(true, detailed, options.drop_first())
    } else if options[0] == 'l' {
        apply_options(show_hidden, true, options.drop_first())
    } else {
        Err(unsupported_option_text(options[0]))
    }
}

/// One argument of `ls`: `--` ends the options, `-xy` sets options, anything
/// else is the path (only one is allowed).
pub open spec fn list_step(s: ListState, arg: Seq<char>) -> Result<ListState, Seq<char>> {
    if !s.options_finished && arg == "--"@ {
        Ok(ListState { options_finished: true, ..s })
    } else if !s.options_finished && starts_with(arg, "-"@) && arg.len() > 1 {
        match apply_options(s.show_hidden, s.detailed, arg.drop_first()) {
            Ok((h, d)) => Ok(ListState { show_hidden: h, detailed: d, ..s }),
            Err(m) => Err(m),
        }
    } else if s.path is Some {
        Err(ONE_DIRECTORY_MESSAGE@)
    } else {
        Ok(ListState { path: Some(arg), ..s })
    }
}

/// The arguments `args`, read in order from state `s`.
pub open spec fn list_fold(s: ListState, args: Seq<Seq<char>>) -> Result<ListState, Seq<char>>
    decreases args.len(),
{
    if args.len() == 0 {
        Ok(s)
    } else {
        match list_step(s, args[0]) {
            Ok(t) => list_fold(t, args.drop_first()),
            Err(m) => Err(m),
        }
    }
}

/// `ll` starts with hidden entries and details; `ls` with neither.
pub open spec fn list_start(executable: Seq<char>) -> ListState {
    ListState {
        show_hidden: executable == "ll"@,
        detailed: executable == "ll"@,
        path: None,
        options_finished: false,
    }
}

/// `ll` is `ls -al`: any arguments read after `ll` give what the same
/// arguments give after `ls -al`.
pub proof fn lemma_ll_is_ls_al(args: Seq<Seq<char>>)
    ensures
        list_fold(list_start("ll"@), args) == list_fold(list_start("ls"@), seq!["-al"@] + args),
{
    reveal_strlit("ll");
    reveal_strlit("ls");
    reveal_strlit("-al");
    reveal_strlit("--");
    reveal_strlit("-");
    let all = seq!["-al"@] + args;
    assert(all[0] == "-al"@);
    assert(all.drop_first() =~= args);
    let opts = "-al"@.drop_first();
    assert(opts =~= seq!['a', 'l']);
    assert(opts.drop_first() =~= seq!['l']);
    assert(opts.drop_first().drop_first() =~= Seq::<char>::empty());
    reveal_with_fuel(apply_options, 3);
    assert("-al"@.subrange(0, 1) =~= "-"@);
    assert("-al"@ != "--"@);
    assert(list_step(list_start("ls"@), "-al"@) == Ok::<ListState, Seq<char>>(list_start("ll"@)));
}

/// Option letters only set their own flag: a run of `a` and `l` letters
/// turns on show-hidden exactly when it holds an `a` and details exactly
/// when it holds an `l`, leaving each flag as it was otherwise; a run with any
/// other letter is refused.
pub proof fn lemma_option_letters_set_their_flag(show_hidden: bool, detailed: bool, options: Seq<char>)
    ensures
        (forall|i: int| 0 <= i < options.len() ==> options[i] == 'a' || options[i] == 'l')
            ==> apply_options(show_hidden, detailed, options) == Ok::<(bool, bool), Seq<char>>(
            (show_hidden || options.contains('a'), detailed || options.contains('l')),
        ),
        (exists|i: int| 0 <= i < options.len() && options[i] != 'a' && options[i] != 'l')
            ==> apply_options(show_hidden, detailed, options) is Err,
    decreases options.len(),
{
    if options.len() > 0 {
        let rest = options.drop_first();
        let h = if options[0] == 'a' {
            true
        } else {
            show_hidden
        };
        let d = if options[0] == 'l' {
            true
        } else {
            detailed
        };
        lemma_option_letters_set_their_flag(h, d, rest);
        assert forall|c: char| options.contains(c) <==> (options[0] == c || rest.contains(c)) by {
            if options.contains(c) {
                let k = choose|k: int| 0 <= k < options.len() && options[k] == c;
                if k > 0 {
                    assert(rest[k - 1] == c);
                }
            }
            if rest.contains(c) {
                let k = choose|k: int| 0 <= k < rest.len() && rest[k] == c;
                assert(options[k + 1] == c);
            }
        }
        if exists|i: int| 0 <= i < options.len() && options[i] != 'a' && options[i] != 'l' {
            let i = choose|i: int| 0 <= i < options.len() && options[i] != 'a' && options[i] != 'l';
            if i > 0 {
                assert(rest[i - 1] == options[i]);
            }
        }
        if forall|i: int| 0 <= i < options.len() ==> options[i] == 'a' || options[i] == 'l' {
            assert forall|i: int| 0 <= i < rest.len() implies rest[i] == 'a' || rest[i] == 'l' by {
                assert(rest[i] == options[i + 1]);
            }
        }
    }
}

/// Extensions name their language without regard to ASCII case, and the
/// usual aliases share one language: `yml` and `yaml` are YAML, `ts` and
/// `tsx` TypeScript, `js` and `jsx` JavaScript, `sh`, `zsh` and `bash` Shell.
pub proof fn lemma_language_aliases(extension: Seq<char>)
    ensures
        ascii_lower(extension) == "yml"@ || ascii_lower(extension) == "yaml"@ ==> spec_language_name(extension)
            == "YAML"@,
        ascii_lower(extension) == "ts"@ || ascii_lower(extension) == "tsx"@ ==> spec_language_name(extension)
            == "TypeScript"@,
        ascii_lower(extension) == "js"@ || ascii_lower(extension) == "jsx"@ ==> spec_language_name(extension)
            == "JavaScript"@,
        ascii_lower(extension) == "sh"@ || ascii_lower(extension) == "zsh"@ || ascii_lower(extension)
            == "bash"@ ==> spec_language_name(extension) == "Shell"@,
        ascii_lower(extension) == "rs"@ ==> spec_language_name(extension) == "Rust"@,
        ascii_lower(extension) == "md"@ ==> spec_language_name(extension) == "Markdown"@,
{
    reveal_strlit("rs");
    reveal_strlit("ts");
    reveal_strlit("tsx");
    reveal_strlit("js");
    reveal_strlit("jsx");
    reveal_strlit("json");
    reveal_strlit("md");
    reveal_strlit("toml");
    reveal_strlit("yml");
    reveal_strlit("yaml");
    reveal_strlit("css");
    reveal_strlit("html");
    reveal_strlit("sh");
    reveal_strlit("zsh");
    reveal_strlit("bash");
    reveal_strlit("py");
    assert("rs"@[0] == 'r' && "ts"@[0] == 't' && "tsx"@[0] == 't' && "js"@[0] == 'j' && "jsx"@[0] == 'j');
    assert("json"@[1] == 's' && "md"@[0] == 'm' && "toml"@[0] == 't' && "yml"@[1] == 'm' && "yaml"@[1] == 'a');
    assert("css"@[0] == 'c' && "html"@[0] == 'h' && "sh"@[0] == 's' && "zsh"@[0] == 'z' && "bash"@[0] == 'b');
    assert("py"@[0] == 'p' && "ts"@[1] == 's' && "js"@[1] == 's' && "sh"@[1] == 'h' && "md"@[1] == 'd');
    assert("tsx"@[1] == 's' && "jsx"@[1] == 's' && "zsh"@[1] == 's' && "yml"@[0] == 'y' && "rs"@[1] == 's');
}

fn option_letters(show_hidden: bool, detailed: bool, argument: &Vec<char>) -> (r: Result<(bool, bool), String>)
    requires
        argument@.len() >= 1,
    ensures
        match apply_options(show_hidden, detailed, argument@.drop_first()) {
            Ok(p) => r == Ok::<(bool, bool), String>(p),
            Err(m) => r matches Err(e) && e@ == m,
        },
{
    let mut hidden = show_hidden;
    let mut details = detailed;
    let mut i: usize = 1;
    while i < argument.len()
        invariant
            1 <= i <= argument@.len(),
            apply_options(show_hidden, detailed, argument@.drop_first()) == apply_options(
                hidden,
                details,
                argument@.subrange(i as int, argument@.len() as int),
            ),
        decreases argument.len() - i,
    {
        let c = argument[i];
        let ghost rest = argument@.subrange(i as int, argument@.len() as int);
        assert(rest.drop_first() =~= argument@.subrange(i + 1, argument@.len() as int));
        if c == 'a' {
            hidden = true;
        } else if c == 'l' {
            details = true;
        } else {
            let mut m = "暂不支持 ls -".to_owned();
            push_char(&mut m, c);
            m.append("，当前支持 -a 和 -l");
            return Err(m);
        }
        i = i + 1;
    }
    assert(argument@.drop_first() =~= argument@.subrange(1, argument@.len() as int));
    Ok((hidden, details))
}

/// Reads the arguments of `ls` or `ll`: whether hidden entries are shown,
/// whether details are shown, and the directory asked for.
pub fn parse_list_arguments(parsed: &ParsedCommand) -> (r: Result<(bool, bool, Option<String>), String>)
    ensures
        match list_fold(list_start(parsed.executable@), parsed.args.deep_view()) {
            Ok(s) => r matches Ok((h, d, p)) && h == s.show_hidden && d == s.detailed && match p {
                Some(q) => s.path == Some(q@),
                None => s.path is None,
            },
            Err(m) => r matches Err(e) && e@ == m,
        },
{
    let is_ll = str_eq(parsed.executable.as_str(), "ll");
    let mut show_hidden = is_ll;
    let mut detailed = is_ll;
    let mut path: Option<String> = None;
    let mut options_finished = false;
    let ghost args = parsed.args.deep_view();
    let mut i: usize = 0;
    assert(args.subrange(0, args.len() as int) =~= args);
    while i < parsed.args.len()
        invariant
            i <= parsed.args@.len(),
            args == parsed.args.deep_view(),
            list_fold(list_start(parsed.executable@), args) == list_fold(
                ListState {
                    show_hidden,
                    detailed,
                    path: match path {
                        Some(q) => Some(q@),
                        None => None,
                    },
                    options_finished,
                },
                args.subrange(i as int, args.len() as int),
            ),
        decreases parsed.args.len() - i,
    {
        let argument = &parsed.args[i];
        let ghost rest = args.subrange(i as int, args.len() as int);
        assert(rest.drop_first() =~= args.subrange(i + 1, args.len() as int));
        assert(rest[0] == argument@);
        let chars = chars_of(argument.as_str());
        let dash = chars_of("-");
        if !options_finished && str_eq(argument.as_str(), "--") {
            options_finished = true;
        } else if !options_finished && crate::text::starts_with_exec(&chars, &dash) && chars.len() > 1 {
            match option_letters(show_hidden, detailed, &chars) {
                Ok((h, d)) => {
                    show_hidden = h;
                    detailed = d;
                },
                Err(m) => {
                    return Err(m);
                },
            }
        } else if path.is_some() {
            return Err(ONE_DIRECTORY_MESSAGE.to_owned());
        } else {
            path = Some(argument.clone());
        }
        i = i + 1;
    }
    Ok((show_hidden, detailed, path))
}

/// The file that `cat` shows: one path that is not an option, or `--`
/// followed by one path.
pub fn parse_cat_argument(args: &Vec<String>) -> (r: Result<String, String>)
    ensures
        if args@.len() == 1 && !starts_with(args@[0]@, "-"@) {
            r matches Ok(p) && p == args@[0]
        } else if args@.len() == 2 && args@[0]@ == "--"@ {
            r matches Ok(p) && p == args@[1]
        } else if args@.len() == 0 {
            r matches Err(m) && m@ == CAT_MISSING_MESSAGE@
        } else {
            r matches Err(m) && m@ == CAT_TOO_MANY_MESSAGE@
        },
{
    if args.len() == 1 {
        let chars = chars_of(args[0].as_str());
        let dash = chars_of("-");
        if !crate::text::starts_with_exec(&chars, &dash) {
            return Ok(args[0].clone());
        }
    }
    if args.len() == 2 && str_eq(args[0].as_str(), "--") {
        return Ok(args[1].clone());
    }
    if args.len() == 0 {
        Err(CAT_MISSING_MESSAGE.to_owned())
    } else {
        Err(CAT_TOO_MANY_MESSAGE.to_owned())
    }
}

/// The path a presentation command inspects: an absolute path as it is, a
/// relative one below the active context, no path the context itself; `None`
/// when the context is needed and there is none.
pub open spec fn spec_candidate(raw: Option<Seq<char>>, active_context: Option<String>) -> Option<Seq<char>> {
    match raw {
        Some(v) => if is_absolute(v) {
            Some(v)
        } else {
            match active_context {
                Some(c) => Some(join(c@, v)),
                None => None,
            }
        },
        None => match active_context {
            Some(c) => Some(c@),
            None => None,
        },
    }
}

/// The path a presentation command inspects, before it is resolved on the
/// filesystem.
pub fn presentation_candidate(raw: Option<&str>, active_context: &Option<String>) -> (r: Option<String>)
    ensures
        match r {
            Some(p) => spec_candidate(
                match raw {
                    Some(v) => Some(v@),
                    None => None,
                },
                *active_context,
            ) == Some(p@),
            None => spec_candidate(
                match raw {
                    Some(v) => Some(v@),
                    None => None,
                },
                *active_context,
            ) is None,
        },
{
    match raw {
        Some(value) => {
            if is_absolute_path(value) {
                Some(value.to_owned())
            } else {
                match active_context {
                    Some(context) => Some(path_join(context.as_str(), value)),
                    None => None,
                }
            }
        },
        None => match active_context {
            Some(context) => Some(context.clone()),
            None => None,
        },
    }
}

/// What a presentation command inspects once its path is resolved.
#[derive(Debug)]
pub enum PresentationTarget {
    /// A directory listing of `path`.
    Listing { show_hidden: bool, detailed: bool, path: String },
    /// The text file at `path`.
    TextFile { path: String },
}

/// A finished presentation: the output, the arguments it stands for, the
/// inspected path and the active context it leaves.
#[derive(Debug)]
pub struct PresentationResult {
    pub output: PresentationOutput,
    pub effective_args: Vec<String>,
    pub target_path: String,
    pub active_context: Option<String>,
}

/// The outcome of a presentation command.
#[derive(Debug)]
pub enum PresentationResolution {
    /// A relative path was given (or none) and there is no active context.
    NeedsContext,
    /// The path to resolve and read; the filesystem part follows.
    Inspect(PresentationTarget),
    /// The finished output.
    Ready(PresentationResult),
}

/// Decides what `ls`, `ll` or `cat` inspects: the arguments are read, the
/// path is placed relative to the active context, and a missing context is
/// reported; other executables are refused.
pub fn execute(parsed: &ParsedCommand, data: &AppData) -> (r: Result<PresentationResolution, String>)
    ensures
        parsed.executable@ != "ls"@ && parsed.executable@ != "ll"@ && parsed.executable@ != "cat"@
            ==> (r matches Err(m) && m@ == UNSUPPORTED_PRESENTATION_MESSAGE@),
        parsed.executable@ == "ls"@ || parsed.executable@ == "ll"@ ==> match list_fold(
            list_start(parsed.executable@),
            parsed.args.deep_view(),
        ) {
            Err(m) => r matches Err(e) && e@ == m,
            Ok(s) => match spec_candidate(s.path, data.active_context) {
                None => r matches Ok(PresentationResolution::NeedsContext),
                Some(c) => r matches Ok(
                    PresentationResolution::Inspect(PresentationTarget::Listing { show_hidden, detailed, path }),
                ) && show_hidden == s.show_hidden && detailed == s.detailed && path@ == c,
            },
        },
        parsed.executable@ == "cat"@ ==> {
            let a = parsed.args@;
            let chosen: Option<String> = if a.len() == 1 && !starts_with(a[0]@, "-"@) {
                Some(a[0])
            } else if a.len() == 2 && a[0]@ == "--"@ {
                Some(a[1])
            } else {
                None
            };
            match chosen {
                None => r matches Err(e) && (if a.len() == 0 {
                    e@ == CAT_MISSING_MESSAGE@
                } else {
                    e@ == CAT_TOO_MANY_MESSAGE@
                }),
                Some(p) => match spec_candidate(Some(p@), data.active_context) {
                    None => r matches Ok(PresentationResolution::NeedsContext),
                    Some(c) => r matches Ok(
                        PresentationResolution::Inspect(PresentationTarget::TextFile { path }),
                    ) && path@ == c,
                },
            }
        },
{
    proof {
        reveal_strlit("ls");
        reveal_strlit("ll");
        reveal_strlit("cat");
        assert("ls"@.len() == 2 && "ll"@.len() == 2 && "cat"@.len() == 3);
        assert("ls"@ != "cat"@);
        assert("ll"@ != "cat"@);
    }
    if str_eq(parsed.executable.as_str(), "ls") || str_eq(parsed.executable.as_str(), "ll") {
        let (show_hidden, detailed, requested) = parse_list_arguments(parsed)?;
        let candidate = match &requested {
            Some(p) => presentation_candidate(Some(p.as_str()), &data.active_context),
            None => presentation_candidate(None, &data.active_context),
        };
        match candidate {
            None => Ok(PresentationResolution::NeedsContext),
            Some(path) => Ok(
                PresentationResolution::Inspect(
                    PresentationTarget::Listing { show_hidden, detailed, path },
                ),
            ),
        }
    } else if str_eq(parsed.executable.as_str(), "cat") {
        let requested = parse_cat_argument(&parsed.args)?;
        match presentation_candidate(Some(requested.as_str()), &data.active_context) {
            None => Ok(PresentationResolution::NeedsContext),
            Some(path) => Ok(PresentationResolution::Inspect(PresentationTarget::TextFile { path })),
        }
    } else {
        Err(UNSUPPORTED_PRESENTATION_MESSAGE.to_owned())
    }
}

/// Checks that a canonical inspected path lies inside an enabled workspace.
pub fn validate_allowed_path(path: &str, settings: &Settings, roots: &Vec<Option<String>>) -> (r: Result<
    (),
    String,
>)
    requires
        roots.len() == settings.workspaces.len(),
    ensures
        r is Ok <==> inside_enabled(settings.workspaces@, roots@, path@),
        r matches Err(m) ==> m@ == PATH_OUTSIDE_WORKSPACE_MESSAGE@,
{
    if inside_enabled_workspace(path, settings, roots) {
        Ok(())
    } else {
        Err(PATH_OUTSIDE_WORKSPACE_MESSAGE.to_owned())
    }
}

/// The sort rank of an entry kind: directories, files, links, others.
pub open spec fn kind_rank(kind: PresentationEntryKind) -> u8 {
    match kind {
        PresentationEntryKind::Directory => 0,
        PresentationEntryKind::File => 1,
        PresentationEntryKind::Symlink => 2,
        PresentationEntryKind::Other => 3,
    }
}

pub fn entry_order(kind: PresentationEntryKind) -> (r: u8)
    ensures
        r == kind_rank(kind),
{
    match kind {
        PresentationEntryKind::Directory => 0,
        PresentationEntryKind::File => 1,
        PresentationEntryKind::Symlink => 2,
        PresentationEntryKind::Other => 3,
    }
}

/// What the filesystem reported about an entry (without following links).
#[derive(Debug, Clone, Copy)]
pub struct ItemMetadata {
    pub is_symlink: bool,
    pub is_dir: bool,
    pub is_file: bool,
    pub len: u64,
    /// Modification time in seconds since the Unix epoch, when known.
    pub modified_at: Option<u64>,
}

/// One entry of a directory as read from the filesystem.
#[derive(Debug)]
pub struct ListedItem {
    pub name: String,
    pub path: String,
    /// The entry's metadata; it is not read for hidden entries that are not shown.
    pub metadata: Option<ItemMetadata>,
}

pub open spec fn is_hidden_name(name: Seq<char>) -> bool {
    starts_with(name, "."@)
}

/// The entry is listed: it is not hidden, or hidden entries are shown.
pub open spec fn is_listed(item: ListedItem, show_hidden: bool) -> bool {
    !is_hidden_name(item.name@) || show_hidden
}

pub open spec fn kind_of(m: ItemMetadata) -> PresentationEntryKind {
    if m.is_symlink {
        PresentationEntryKind::Symlink
    } else if m.is_dir {
        PresentationEntryKind::Directory
    } else if m.is_file {
        PresentationEntryKind::File
    } else {
        PresentationEntryKind::Other
    }
}

/// The presentation entry for a listed item.
pub open spec fn entry_of(item: ListedItem) -> PresentationEntry {
    let m = item.metadata->0;
    PresentationEntry {
        name: item.name,
        path: item.path,
        kind: kind_of(m),
        size: if m.is_file {
            Some(m.len)
        } else {
            None
        },
        modified_at: m.modified_at,
        hidden: is_hidden_name(item.name@),
    }
}

/// The entries a listing shows, in reading order.
pub open spec fn listed_entries(items: Seq<ListedItem>, show_hidden: bool) -> Seq<PresentationEntry>
    decreases items.len(),
{
    if items.len() == 0 {
        Seq::empty()
    } else {
        let before = listed_entries(items.drop_last(), show_hidden);
        if is_listed(items.last(), show_hidden) {
            before.push(entry_of(items.last()))
        } else {
            before
        }
    }
}

/// How many of `items` have a hidden name (shown or not).
pub open spec fn hidden_total(items: Seq<ListedItem>) -> nat
    decreases items.len(),
{
    if items.len() == 0 {
        0
    } else {
        hidden_total(items.drop_last()) + if is_hidden_name(items.last().name@) {
            1nat
        } else {
            0nat
        }
    }
}

/// How many of `entries` are of kind `kind`.
pub open spec fn kind_total(entries: Seq<PresentationEntry>, kind: PresentationEntryKind) -> nat
    decreases entries.len(),
{
    if entries.len() == 0 {
        0
    } else {
        kind_total(entries.drop_last(), kind) + if entries.last().kind == kind {
            1nat
        } else {
            0nat
        }
    }
}

/// The sort key of an entry: kind rank, lower-case name, name.
pub open spec fn entry_key(e: PresentationEntry) -> (u8, Seq<char>, Seq<char>) {
    (kind_rank(e.kind), unicode_lowercase(e.name@), e.name@)
}

/// Key `x` sorts strictly before key `y`.
pub open spec fn key_lt(x: (u8, Seq<char>, Seq<char>), y: (u8, Seq<char>, Seq<char>)) -> bool {
    x.0 < y.0 || (x.0 == y.0 && (lex_lt(x.1, y.1) || (x.1 == y.1 && lex_lt(x.2, y.2))))
}

/// Entries in listing order: kind first, then name ignoring case, then name.
pub open spec fn sorted_entries(s: Seq<PresentationEntry>) -> bool {
    forall|a: int, b: int| 0 <= a < b < s.len() ==> !key_lt(entry_key(s[b]), entry_key(s[a]))
}

proof fn lemma_key_total(x: (u8, Seq<char>, Seq<char>), y: (u8, Seq<char>, Seq<char>))
    ensures
        !key_lt(y, x) ==> key_lt(x, y) || x == y,
{
    lemma_lex_total(x.1, y.1);
    lemma_lex_total(x.2, y.2);
}

proof fn lemma_key_before(x: (u8, Seq<char>, Seq<char>), y: (u8, Seq<char>, Seq<char>), z: (u8, Seq<char>, Seq<char>))
    requires
        key_lt(x, y),
        !key_lt(z, y),
    ensures
        key_lt(x, z),
{
    lemma_key_total(y, z);
    lemma_lex_transitive(x.1, y.1, z.1);
    lemma_lex_transitive(x.2, y.2, z.2);
}

proof fn lemma_key_asymmetric(x: (u8, Seq<char>, Seq<char>), y: (u8, Seq<char>, Seq<char>))
    requires
        key_lt(x, y),
    ensures
        !key_lt(y, x),
{
    lemma_lex_asymmetric(x.1, y.1);
    lemma_lex_asymmetric(x.2, y.2);
    lemma_lex_irreflexive(x.1);
}

/// An entry with its sort key computed.
struct Keyed {
    entry: PresentationEntry,
    rank: u8,
    lower: Vec<char>,
    name: Vec<char>,
}

spec fn keyed_ok(k: Keyed) -> bool {
    k.rank == kind_rank(k.entry.kind) && k.lower@ == unicode_lowercase(k.entry.name@) && k.name@ == k.entry.name@
}

spec fn entries_of(s: Seq<Keyed>) -> Seq<PresentationEntry> {
    s.map_values(|k: Keyed| k.entry)
}

/// Whether key of `a` sorts strictly before key of `b`.
fn keyed_lt(a: &Keyed, b: &Keyed) -> (r: bool)
    requires
        keyed_ok(*a),
        keyed_ok(*b),
    ensures
        r == key_lt(entry_key(a.entry), entry_key(b.entry)),
{
    if a.rank < b.rank {
        return true;
    }
    if a.rank > b.rank {
        return false;
    }
    let c = compare_chars(&a.lower, &b.lower);
    if c < 0 {
        return true;
    }
    if c > 0 {
        proof {
            lemma_lex_asymmetric(b.lower@, a.lower@);
        }
        return false;
    }
    let d = compare_chars(&a.name, &b.name);
    d < 0
}

/// The first position whose entry sorts strictly after `x`, or the length.
fn insertion_point(r: &Vec<Keyed>, x: &Keyed) -> (pos: usize)
    requires
        keyed_ok(*x),
        forall|i: int| 0 <= i < r@.len() ==> keyed_ok(#[trigger] r@[i]),
    ensures
        pos <= r@.len(),
        forall|a: int| 0 <= a < pos ==> !key_lt(entry_key(x.entry), entry_key(#[trigger] r@[a].entry)),
        pos < r@.len() ==> key_lt(entry_key(x.entry), entry_key(r@[pos as int].entry)),
{
    let mut pos: usize = 0;
    while pos < r.len()
        invariant
            pos <= r@.len(),
            keyed_ok(*x),
            forall|i: int| 0 <= i < r@.len() ==> keyed_ok(#[trigger] r@[i]),
            forall|a: int| 0 <= a < pos ==> !key_lt(entry_key(x.entry), entry_key(#[trigger] r@[a].entry)),
        decreases r.len() - pos,
    {
        if keyed_lt(x, &r[pos]) {
            return pos;
        }
        pos = pos + 1;
    }
    pos
}

/// Inserts `x` after every element that does not sort after it.
fn insert_sorted(r: &mut Vec<Keyed>, x: Keyed)
    requires
        keyed_ok(x),
        forall|i: int| 0 <= i < old(r)@.len() ==> keyed_ok(#[trigger] old(r)@[i]),
        sorted_entries(entries_of(old(r)@)),
    ensures
        forall|i: int| 0 <= i < final(r)@.len() ==> keyed_ok(#[trigger] final(r)@[i]),
        sorted_entries(entries_of(final(r)@)),
        entries_of(final(r)@).to_multiset() == entries_of(old(r)@).to_multiset().insert(x.entry),
        final(r)@.len() == old(r)@.len() + 1,
{
    let ghost before = r@;
    let pos = insertion_point(r, &x);
    let ghost xe = x.entry;
    r.insert(pos, x);
    proof {
        let es = entries_of(before);
        assert(entries_of(r@) =~= es.insert(pos as int, xe));
        vstd::seq_lib::to_multiset_insert(es, pos as int, xe);
        assert forall|i: int| 0 <= i < r@.len() implies keyed_ok(#[trigger] r@[i]) by {
            if i < pos {
                assert(r@[i] == before[i]);
            } else if i > pos {
                assert(r@[i] == before[i - 1]);
            }
        }
        let n = entries_of(r@);
        assert forall|a: int, b: int| 0 <= a < b < n.len() implies !key_lt(entry_key(n[b]), entry_key(n[a])) by {
            if b < pos {
                assert(n[a] == es[a] && n[b] == es[b]);
            } else if b == pos {
                assert(n[a] == es[a]);
                assert(n[b] == xe);
                assert(!key_lt(entry_key(xe), entry_key(before[a].entry)));
            } else if a < pos {
                assert(n[a] == es[a] && n[b] == es[b - 1]);
            } else if a == pos {
                assert(n[a] == xe && n[b] == es[b - 1]);
                assert(key_lt(entry_key(xe), entry_key(before[pos as int].entry)));
                assert(before[pos as int].entry == es[pos as int]);
                if b - 1 > pos {
                    assert(!key_lt(entry_key(es[b - 1]), entry_key(es[pos as int])));
                    lemma_key_before(entry_key(xe), entry_key(es[pos as int]), entry_key(es[b - 1]));
                }
                lemma_key_asymmetric(entry_key(xe), entry_key(es[b - 1]));
            } else {
                assert(n[a] == es[a - 1] && n[b] == es[b - 1]);
            }
        }
    }
}

pub const MAX_DIRECTORY_ENTRIES: usize = 500;

/// The `ls` arguments a listing stands for: its flags, then the path.
pub open spec fn listing_args(show_hidden: bool, detailed: bool, path: Seq<char>) -> Seq<Seq<char>> {
    if show_hidden && detailed {
        seq!["-al"@, path]
    } else if show_hidden {
        seq!["-a"@, path]
    } else if detailed {
        seq!["-l"@, path]
    } else {
        seq![path]
    }
}

/// The first `MAX_DIRECTORY_ENTRIES` of `s`.
pub open spec fn shown_part(s: Seq<PresentationEntry>) -> Seq<PresentationEntry> {
    if s.len() > MAX_DIRECTORY_ENTRIES {
        s.subrange(0, MAX_DIRECTORY_ENTRIES as int)
    } else {
        s
    }
}

fn is_hidden(name: &str) -> (r: bool)
    ensures
        r == is_hidden_name(name@),
{
    let chars = chars_of(name);
    let dot = chars_of(".");
    crate::text::starts_with_exec(&chars, &dot)
}

/// Whether an entry named `name` is shown (and so has its metadata read).
pub fn is_shown(name: &str, show_hidden: bool) -> (r: bool)
    ensures
        r == (!is_hidden_name(name@) || show_hidden),
{
    !is_hidden(name) || show_hidden
}

fn make_entry(item: &ListedItem) -> (e: PresentationEntry)
    requires
        item.metadata is Some,
    ensures
        e == entry_of(*item),
{
    let m = match item.metadata {
        Some(m) => m,
        None => {
            proof {
                assert(false);
            }
            ItemMetadata { is_symlink: false, is_dir: false, is_file: false, len: 0, modified_at: None }
        },
    };
    let kind = if m.is_symlink {
        PresentationEntryKind::Symlink
    } else if m.is_dir {
        PresentationEntryKind::Directory
    } else if m.is_file {
        PresentationEntryKind::File
    } else {
        PresentationEntryKind::Other
    };
    PresentationEntry {
        name: item.name.clone(),
        path: item.path.clone(),
        kind,
        size: if m.is_file {
            Some(m.len)
        } else {
            None
        },
        modified_at: m.modified_at,
        hidden: is_hidden(item.name.as_str()),
    }
}

fn keyed(entry: PresentationEntry) -> (k: Keyed)
    ensures
        keyed_ok(k),
        k.entry == entry,
{
    let rank = entry_order(entry.kind);
    let lowered = to_lowercase(entry.name.as_str());
    let lower = chars_of(lowered.as_str());
    let name = chars_of(entry.name.as_str());
    Keyed { entry, rank, lower, name }
}

/// What the filesystem reports: an entry is at most one of a link, a
/// directory and a regular file.
pub open spec fn metadata_well_formed(m: ItemMetadata) -> bool {
    &&& !(m.is_symlink && m.is_dir)
    &&& !(m.is_symlink && m.is_file)
    &&& !(m.is_dir && m.is_file)
}

/// A listed entry has a size exactly when it is a regular file.
pub open spec fn size_matches_kind(e: PresentationEntry) -> bool {
    e.size is Some <==> e.kind == PresentationEntryKind::File
}

proof fn lemma_listed_sizes(items: Seq<ListedItem>, show_hidden: bool)
    requires
        forall|i: int|
            0 <= i < items.len() && is_listed(#[trigger] items[i], show_hidden) ==> items[i].metadata is Some
                && metadata_well_formed(items[i].metadata->0),
    ensures
        forall|k: int|
            0 <= k < listed_entries(items, show_hidden).len() ==> size_matches_kind(
                #[trigger] listed_entries(items, show_hidden)[k],
            ),
    decreases items.len(),
{
    if items.len() > 0 {
        let rest = items.drop_last();
        assert forall|i: int| 0 <= i < rest.len() && is_listed(#[trigger] rest[i], show_hidden) implies rest[i].metadata is Some
            && metadata_well_formed(rest[i].metadata->0) by {
            assert(rest[i] == items[i]);
        }
        lemma_listed_sizes(rest, show_hidden);
        let before = listed_entries(rest, show_hidden);
        let all = listed_entries(items, show_hidden);
        assert(items.last() == items[items.len() - 1]);
        assert forall|k: int| 0 <= k < all.len() implies size_matches_kind(#[trigger] all[k]) by {
            if k < before.len() {
                assert(all[k] == before[k]);
            } else {
                assert(all[k] == entry_of(items.last()));
            }
        }
    }
}

/// Builds the listing of directory `path` from its entries as the filesystem
/// reported them: hidden entries are counted and shown only on request,
/// entries are ordered by kind (directories, files, links, others), then by
/// name ignoring case, then by name; at most `MAX_DIRECTORY_ENTRIES` are kept.
pub fn directory_listing(path: String, show_hidden: bool, detailed: bool, items: &Vec<ListedItem>) -> (r:
    PresentationResult)
    requires
        forall|i: int|
            0 <= i < items@.len() && is_listed(#[trigger] items@[i], show_hidden) ==> items@[i].metadata is Some
                && metadata_well_formed(items@[i].metadata->0),
    ensures
        ({
            let listed = listed_entries(items@, show_hidden);
            &&& r.output matches PresentationOutput::Directory {
                path: p,
                entries,
                directory_count,
                file_count,
                hidden_count,
                detailed: d,
                truncated,
            }
            &&& p == path
            &&& d == detailed
            &&& hidden_count == hidden_total(items@)
            &&& directory_count == kind_total(listed, PresentationEntryKind::Directory)
            &&& file_count == kind_total(listed, PresentationEntryKind::File)
            &&& truncated == (listed.len() > MAX_DIRECTORY_ENTRIES)
            &&& exists|s: Seq<PresentationEntry>|
                #![trigger shown_part(s)]
                s.to_multiset() == listed.to_multiset() && sorted_entries(s) && entries@ == shown_part(s)
            &&& forall|k: int| 0 <= k < entries@.len() ==> size_matches_kind(#[trigger] entries@[k])
        }),
        r.effective_args.deep_view() == listing_args(show_hidden, detailed, path@),
        r.target_path == path,
        r.active_context == Some(path),
{
    let mut sorted: Vec<Keyed> = Vec::new();
    let mut directory_count: usize = 0;
    let mut file_count: usize = 0;
    let mut hidden_count: usize = 0;
    let mut i: usize = 0;
    assert(entries_of(sorted@) =~= Seq::<PresentationEntry>::empty());
    assert(items@.take(0) =~= Seq::<ListedItem>::empty());
    while i < items.len()
        invariant
            i <= items@.len(),
            forall|j: int|
                0 <= j < items@.len() && is_listed(#[trigger] items@[j], show_hidden) ==> items@[j].metadata is Some,
            forall|j: int| 0 <= j < sorted@.len() ==> keyed_ok(#[trigger] sorted@[j]),
            sorted_entries(entries_of(sorted@)),
            entries_of(sorted@).to_multiset() == listed_entries(items@.take(i as int), show_hidden).to_multiset(),
            sorted@.len() == listed_entries(items@.take(i as int), show_hidden).len(),
            sorted@.len() <= i,
            hidden_count == hidden_total(items@.take(i as int)),
            hidden_count <= i,
            directory_count == kind_total(listed_entries(items@.take(i as int), show_hidden), PresentationEntryKind::Directory),
            file_count == kind_total(listed_entries(items@.take(i as int), show_hidden), PresentationEntryKind::File),
            directory_count <= sorted@.len(),
            file_count <= sorted@.len(),
        decreases items.len() - i,
    {
        let item = &items[i];
        let ghost prefix = items@.take(i as int);
        let ghost next = items@.take(i + 1);
        assert(next.drop_last() =~= prefix);
        assert(next.last() == items@[i as int]);
        let hidden = is_hidden(item.name.as_str());
        if hidden {
            hidden_count = hidden_count + 1;
        }
        if !hidden || show_hidden {
            let entry = make_entry(item);
            proof {
                let l = listed_entries(prefix, show_hidden);
                assert(l.push(entry).drop_last() =~= l);
            }
            if entry.kind == PresentationEntryKind::Directory {
                directory_count = directory_count + 1;
            } else if entry.kind == PresentationEntryKind::File {
                file_count = file_count + 1;
            }
            let k = keyed(entry);
            insert_sorted(&mut sorted, k);
            proof {
                vstd::seq_lib::to_multiset_build(listed_entries(prefix, show_hidden), entry_of(*item));
            }
        }
        i = i + 1;
    }
    assert(items@.take(items@.len() as int) =~= items@);
    let ghost full = entries_of(sorted@);
    let truncated = sorted.len() > MAX_DIRECTORY_ENTRIES;
    if truncated {
        sorted.truncate(MAX_DIRECTORY_ENTRIES);
    }
    assert(entries_of(sorted@) =~= shown_part(full));
    let mut entries: Vec<PresentationEntry> = Vec::new();
    let ghost kept = entries_of(sorted@);
    while sorted.len() > 0
        invariant
            entries@ + entries_of(sorted@) == kept,
        decreases sorted.len(),
    {
        let k = sorted.remove(0);
        proof {
            assert(entries@.push(k.entry) + entries_of(sorted@) =~= kept);
        }
        entries.push(k.entry);
    }
    assert(entries@ =~= kept);
    proof {
        let listed = listed_entries(items@, show_hidden);
        lemma_listed_sizes(items@, show_hidden);
        assert forall|k: int| 0 <= k < entries@.len() implies size_matches_kind(#[trigger] entries@[k]) by {
            let e = entries@[k];
            assert(e == full[k]);
            vstd::seq_lib::to_multiset_contains(full, e);
            vstd::seq_lib::to_multiset_contains(listed, e);
            assert(full.contains(e));
            let j = choose|j: int| 0 <= j < listed.len() && listed[j] == e;
            assert(size_matches_kind(listed[j]));
        }
    }
    let mut effective_args: Vec<String> = Vec::new();
    if show_hidden && detailed {
        effective_args.push("-al".to_owned());
    } else if show_hidden {
        effective_args.push("-a".to_owned());
    } else if detailed {
        effective_args.push("-l".to_owned());
    }
    effective_args.push(path.clone());
    assert(effective_args.deep_view() =~= listing_args(show_hidden, detailed, path@));
    PresentationResult {
        output: PresentationOutput::Directory {
            path: path.clone(),
            entries,
            directory_count,
            file_count,
            hidden_count,
            detailed,
            truncated,
        },
        effective_args,
        target_path: path.clone(),
        active_context: Some(path),
    }
}

pub const NOT_DIRECTORY_MESSAGE: &'static str = "目标不是文件夹，请输入可访问的目录路径";

pub const NOT_FILE_MESSAGE: &'static str = "目标不是普通文件，请输入可读取的文本文件路径";

pub const TOO_LARGE_MESSAGE: &'static str = "文件超过 256 KB，请使用编辑器打开或缩小查看范围";

pub const BINARY_MESSAGE: &'static str = "该文件包含二进制内容，请使用对应应用打开";

pub const NOT_UTF8_MESSAGE: &'static str = "该文件不是 UTF-8 文本，请使用对应应用打开";

pub const TOO_MANY_LINES_MESSAGE: &'static str = "文件超过 5000 行，请使用编辑器打开或缩小查看范围";

pub const MAX_TEXT_FILE_BYTES: u64 = 262144;

pub const MAX_TEXT_FILE_LINES: usize = 5000;

/// How many `\n` characters `s` holds.
pub open spec fn newline_total(s: Seq<char>) -> nat
    decreases s.len(),
{
    if s.len() == 0 {
        0
    } else {
        newline_total(s.drop_last()) + if s.last() == '\n' {
            1nat
        } else {
            0nat
        }
    }
}

proof fn lemma_newline_total_bound(s: Seq<char>)
    ensures
        newline_total(s) <= s.len(),
    decreases s.len(),
{
    if s.len() > 0 {
        lemma_newline_total_bound(s.drop_last());
    }
}

/// The number of lines of `s` as `str::lines` counts them: every `\n` ends a
/// line, and a last line without one counts too.
pub open spec fn line_total(s: Seq<char>) -> nat {
    if s.len() > 0 && s.last() != '\n' {
        newline_total(s) + 1
    } else {
        newline_total(s)
    }
}

/// The language shown for a file extension, compared without ASCII case;
/// an unknown extension is shown in lower case.
pub open spec fn spec_language_name(extension: Seq<char>) -> Seq<char> {
    let e = ascii_lower(extension);
    if e == "rs"@ {
        "Rust"@
    } else if e == "ts"@ || e == "tsx"@ {
        "TypeScript"@
    } else if e == "js"@ || e == "jsx"@ {
        "JavaScript"@
    } else if e == "json"@ {
        "JSON"@
    } else if e == "md"@ {
        "Markdown"@
    } else if e == "toml"@ {
        "TOML"@
    } else if e == "yml"@ || e == "yaml"@ {
        "YAML"@
    } else if e == "css"@ {
        "CSS"@
    } else if e == "html"@ {
        "HTML"@
    } else if e == "sh"@ || e == "zsh"@ || e == "bash"@ {
        "Shell"@
    } else if e == "py"@ {
        "Python"@
    } else {
        e
    }
}

/// The language shown for a file extension.
pub fn language_name(extension: &str) -> (r: String)
    ensures
        r@ == spec_language_name(extension@),
{
    let lowered = ascii_lowercase(extension);
    let e = lowered.as_str();
    if str_eq(e, "rs") {
        "Rust".to_owned()
    } else if str_eq(e, "ts") || str_eq(e, "tsx") {
        "TypeScript".to_owned()
    } else if str_eq(e, "js") || str_eq(e, "jsx") {
        "JavaScript".to_owned()
    } else if str_eq(e, "json") {
        "JSON".to_owned()
    } else if str_eq(e, "md") {
        "Markdown".to_owned()
    } else if str_eq(e, "toml") {
        "TOML".to_owned()
    } else if str_eq(e, "yml") || str_eq(e, "yaml") {
        "YAML".to_owned()
    } else if str_eq(e, "css") {
        "CSS".to_owned()
    } else if str_eq(e, "html") {
        "HTML".to_owned()
    } else if str_eq(e, "sh") || str_eq(e, "zsh") || str_eq(e, "bash") {
        "Shell".to_owned()
    } else if str_eq(e, "py") {
        "Python".to_owned()
    } else {
        lowered
    }
}

/// Refuses a file larger than `MAX_TEXT_FILE_BYTES` before it is read.
pub fn check_text_size(size: u64) -> (r: Result<(), String>)
    ensures
        r is Ok <==> size <= MAX_TEXT_FILE_BYTES,
        r matches Err(m) ==> m@ == TOO_LARGE_MESSAGE@,
{
    if size > MAX_TEXT_FILE_BYTES {
        Err(TOO_LARGE_MESSAGE.to_owned())
    } else {
        Ok(())
    }
}

fn has_zero_byte(bytes: &Vec<u8>) -> (r: bool)
    ensures
        r == bytes@.contains(0u8),
{
    let mut i: usize = 0;
    while i < bytes.len()
        invariant
            i <= bytes@.len(),
            forall|j: int| 0 <= j < i ==> bytes@[j] != 0u8,
        decreases bytes.len() - i,
    {
        if bytes[i] == 0 {
            return true;
        }
        i = i + 1;
    }
    false
}

/// The number of lines of `content`.
pub fn count_lines(content: &str) -> (n: usize)
    ensures
        n == line_total(content@),
{
    let chars = chars_of(content);
    let mut n: usize = 0;
    let mut i: usize = 0;
    assert(chars@.subrange(0, 0) =~= Seq::<char>::empty());
    while i < chars.len()
        invariant
            i <= chars@.len(),
            n == newline_total(chars@.subrange(0, i as int)),
            n <= i,
        decreases chars.len() - i,
    {
        assert(chars@.subrange(0, i + 1).drop_last() =~= chars@.subrange(0, i as int));
        if chars[i] == '\n' {
            n = n + 1;
        }
        i = i + 1;
    }
    assert(chars@.subrange(0, chars@.len() as int) =~= chars@);
    if chars.len() > 0 && chars[chars.len() - 1] != '\n' {
        proof {
            lemma_newline_total_bound(chars@.drop_last());
        }
        n = n + 1;
    }
    n
}

/// The name a text file is shown under: its file name, or the whole path.
pub open spec fn shown_name(path: Seq<char>) -> Seq<char> {
    match file_name(path) {
        Some(n) => n,
        None => path,
    }
}

/// The language of the file at `path`, from its extension.
pub open spec fn file_language(path: Seq<char>) -> Option<Seq<char>> {
    match file_name(path) {
        Some(n) => match extension_of(n) {
            Some(e) => Some(spec_language_name(e)),
            None => None,
        },
        None => None,
    }
}

/// Builds the view of the text file at `path` from its size and bytes: it is
/// refused when larger than `MAX_TEXT_FILE_BYTES`, when a byte is zero, when
/// it is not UTF-8, or when it has more than `MAX_TEXT_FILE_LINES` lines.
pub fn text_file_presentation(path: String, size: u64, bytes: Vec<u8>) -> (r: Result<PresentationResult, String>)
    ensures
        size > MAX_TEXT_FILE_BYTES ==> (r matches Err(m) && m@ == TOO_LARGE_MESSAGE@),
        size <= MAX_TEXT_FILE_BYTES && bytes@.contains(0u8) ==> (r matches Err(m) && m@ == BINARY_MESSAGE@),
        size <= MAX_TEXT_FILE_BYTES && !bytes@.contains(0u8) && !vstd::utf8::valid_utf8(bytes@) ==> (r matches Err(m)
            && m@ == NOT_UTF8_MESSAGE@),
        size <= MAX_TEXT_FILE_BYTES && !bytes@.contains(0u8) && vstd::utf8::valid_utf8(bytes@) ==> {
            let content = vstd::utf8::decode_utf8(bytes@);
            if line_total(content) > MAX_TEXT_FILE_LINES {
                r matches Err(m) && m@ == TOO_MANY_LINES_MESSAGE@
            } else {
                &&& r matches Ok(res)
                &&& res.output matches PresentationOutput::TextFile {
                    path: p,
                    name,
                    content: c,
                    size: z,
                    line_count,
                    language,
                }
                &&& p == path
                &&& name@ == shown_name(path@)
                &&& c@ == content
                &&& z == size
                &&& line_count == line_total(content)
                &&& language.deep_view() == file_language(path@)
                &&& res.effective_args.deep_view() == seq![path@]
                &&& res.target_path == path
                &&& res.active_context.deep_view() == parent(path@)
            }
        },
{
    check_text_size(size)?;
    if has_zero_byte(&bytes) {
        return Err(BINARY_MESSAGE.to_owned());
    }
    let content = match utf8_string(bytes) {
        Some(c) => c,
        None => {
            return Err(NOT_UTF8_MESSAGE.to_owned());
        },
    };
    let line_count = count_lines(content.as_str());
    if line_count > MAX_TEXT_FILE_LINES {
        return Err(TOO_MANY_LINES_MESSAGE.to_owned());
    }
    let file = file_name_of(path.as_str());
    let name = match &file {
        Some(n) => n.clone(),
        None => path.clone(),
    };
    let language = match &file {
        Some(n) => match extension_of_name(n.as_str()) {
            Some(e) => Some(language_name(e.as_str())),
            None => None,
        },
        None => None,
    };
    let active_context = parent_of(path.as_str());
    let mut effective_args: Vec<String> = Vec::new();
    effective_args.push(path.clone());
    assert(effective_args.deep_view() =~= seq![path@]);
    Ok(
        PresentationResult {
            output: PresentationOutput::TextFile {
                path: path.clone(),
                name,
                content,
                size,
                line_count,
                language,
            },
            effective_args,
            target_path: path,
            active_context,
        },
    )
}

} // verus!
