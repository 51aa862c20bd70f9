//! The launcher's data: settings, the directory index, history, and the
//! values that commands hand back.

use vstd::prelude::*;

verus! {

/// The version of the persisted state that this library writes.
pub const CURRENT_DATA_VERSION: u32 = 2;

#[derive(Debug)]
pub struct Workspace {
    pub path: String,
    pub enabled: bool,
}

impl Clone for Workspace {
    fn clone(&self) -> (r: Self)
        ensures
            r == *self,
    {
        Workspace { path: self.path.clone(), enabled: self.enabled }
    }
}

/// A copy of an optional string.
pub fn clone_opt_string(s: &Option<String>) -> (r: Option<String>)
    ensures
        r == *s,
{
    match s {
        Some(v) => Some(v.clone()),
        None => None,
    }
}

/// A copy of a vector of strings.
pub fn clone_strings(v: &Vec<String>) -> (r: Vec<String>)
    ensures
        r@ == v@,
{
    let mut r: Vec<String> = Vec::new();
    let mut i: usize = 0;
    while i < v.len()
        invariant
            i <= v.len(),
            r@ == v@.subrange(0, i as int),
        decreases v.len() - i,
    {
        r.push(v[i].clone());
        assert(r@ =~= v@.subrange(0, i + 1));
        i = i + 1;
    }
    assert(r@ =~= v@);
    r
}

#[derive(Debug)]
pub struct Settings {
    pub shortcut: String,
    pub default_workspace: Option<String>,
    pub workspaces: Vec<Workspace>,
}

/// Settings with the workspace list taken as a sequence.
pub struct SettingsView {
    pub shortcut: String,
    pub default_workspace: Option<String>,
    pub workspaces: Seq<Workspace>,
}

impl View for Settings {
    type V = SettingsView;

    open spec fn view(&self) -> SettingsView {
        SettingsView {
            shortcut: self.shortcut,
            default_workspace: self.default_workspace,
            workspaces: self.workspaces@,
        }
    }
}

impl Clone for Settings {
    fn clone(&self) -> (r: Self)
        ensures
            r@ == self@,
    {
        let mut workspaces: Vec<Workspace> = Vec::new();
        let mut i: usize = 0;
        while i < self.workspaces.len()
            invariant
                i <= self.workspaces.len(),
                workspaces@ == self.workspaces@.subrange(0, i as int),
            decreases self.workspaces.len() - i,
        {
            workspaces.push(self.workspaces[i].clone());
            assert(workspaces@ =~= self.workspaces@.subrange(0, i + 1));
            i = i + 1;
        }
        assert(workspaces@ =~= self.workspaces@);
        Settings {
            shortcut: self.shortcut.clone(),
            default_workspace: clone_opt_string(&self.default_workspace),
            workspaces,
        }
    }
}

/// The shortcut that a fresh installation registers.
pub open spec fn default_shortcut() -> Seq<char> {
    "CommandOrControl+Shift+Space"@
}

impl Default for Settings {
    fn default() -> (s: Self)
        ensures
            s.shortcut@ == default_shortcut(),
            s.default_workspace is None,
            s.workspaces@.len() == 0,
    {
        Settings {
            shortcut: "CommandOrControl+Shift+Space".to_owned(),
            default_workspace: None,
            workspaces: Vec::new(),
        }
    }
}

#[derive(Debug)]
pub struct DirectoryRecord {
    pub path: String,
    pub name: String,
    pub use_count: u32,
    pub last_used_at: Option<u64>,
}

impl Clone for DirectoryRecord {
    fn clone(&self) -> (r: Self)
        ensures
            r == *self,
    {
        DirectoryRecord {
            path: self.path.clone(),
            name: self.name.clone(),
            use_count: self.use_count,
            last_used_at: self.last_used_at,
        }
    }
}

#[derive(Debug, Clone, Copy, PartialEq, Eq, Structural)]
pub enum HistoryActionKind {
    LaunchCommand,
    OpenProject,
    OpenFile,
    CreateDirectoryAndOpen,
    ListDirectory,
    ReadTextFile,
    ChangeContext,
    CreateDirectory,
}

#[derive(Debug, Clone, Copy, PartialEq, Eq, Structural)]
pub struct HistoryAction {
    pub kind: HistoryActionKind,
}

#[derive(Debug)]
pub struct HistoryItem {
    pub id: String,
    pub display_text: String,
    pub executable: String,
    pub args: Vec<String>,
    pub target_path: Option<String>,
    pub action: Option<HistoryAction>,
    pub executed_at: u64,
}

/// A history item with its arguments taken as a sequence.
pub struct HistoryItemView {
    pub id: String,
    pub display_text: String,
    pub executable: String,
    pub args: Seq<String>,
    pub target_path: Option<String>,
    pub action: Option<HistoryAction>,
    pub executed_at: u64,
}

impl View for HistoryItem {
    type V = HistoryItemView;

    open spec fn view(&self) -> HistoryItemView {
        HistoryItemView {
            id: self.id,
            display_text: self.display_text,
            executable: self.executable,
            args: self.args@,
            target_path: self.target_path,
            action: self.action,
            executed_at: self.executed_at,
        }
    }
}

impl DeepView for HistoryItem {
    type V = HistoryItemView;

    open spec fn deep_view(&self) -> HistoryItemView {
        self@
    }
}

impl Clone for HistoryItem {
    fn clone(&self) -> (r: Self)
        ensures
            r@ == self@,
    {
        HistoryItem {
            id: self.id.clone(),
            display_text: self.display_text.clone(),
            executable: self.executable.clone(),
            args: clone_strings(&self.args),
            target_path: clone_opt_string(&self.target_path),
            action: self.action,
            executed_at: self.executed_at,
        }
    }
}

#[derive(Debug)]
pub struct AppData {
    pub version: u32,
    pub settings: Settings,
    pub active_context: Option<String>,
    pub directories: Vec<DirectoryRecord>,
    pub history: Vec<HistoryItem>,
    /// A message about a recovery at start-up, shown once; never persisted.
    pub startup_notice: Option<String>,
}

/// The launcher's data with every vector taken as a sequence.
pub struct AppDataView {
    pub version: u32,
    pub settings: SettingsView,
    pub active_context: Option<String>,
    pub directories: Seq<DirectoryRecord>,
    pub history: Seq<HistoryItemView>,
    pub startup_notice: Option<String>,
}

impl View for AppData {
    type V = AppDataView;

    open spec fn view(&self) -> AppDataView {
        AppDataView {
            version: self.version,
            settings: self.settings@,
            active_context: self.active_context,
            directories: self.directories@,
            history: self.history.deep_view(),
            startup_notice: self.startup_notice,
        }
    }
}

impl Clone for AppData {
    fn clone(&self) -> (r: Self)
        ensures
            r@ == self@,
    {
        let mut directories: Vec<DirectoryRecord> = Vec::new();
        let mut i: usize = 0;
        while i < self.directories.len()
            invariant
                i <= self.directories.len(),
                directories@ == self.directories@.subrange(0, i as int),
            decreases self.directories.len() - i,
        {
            directories.push(self.directories[i].clone());
            assert(directories@ =~= self.directories@.subrange(0, i + 1));
            i = i + 1;
        }
        let mut history: Vec<HistoryItem> = Vec::new();
        let mut j: usize = 0;
        while j < self.history.len()
            invariant
                j <= self.history.len(),
                history.deep_view() == self.history.deep_view().subrange(0, j as int),
            decreases self.history.len() - j,
        {
            let item = self.history[j].clone();
            let ghost before = history.deep_view();
            history.push(item);
            assert(history.deep_view() =~= before.push(item@));
            assert(history.deep_view() =~= self.history.deep_view().subrange(0, j + 1));
            j = j + 1;
        }
        assert(directories@ =~= self.directories@);
        assert(history.deep_view() =~= self.history.deep_view());
        AppData {
            version: self.version,
            settings: self.settings.clone(),
            active_context: clone_opt_string(&self.active_context),
            directories,
            history,
            startup_notice: clone_opt_string(&self.startup_notice),
        }
    }
}

impl Default for AppData {
    fn default() -> (d: Self)
        ensures
            d.version == CURRENT_DATA_VERSION,
            d.settings.shortcut@ == default_shortcut(),
            d.settings.default_workspace is None,
            d.settings.workspaces@.len() == 0,
            d.active_context is None,
            d.directories@.len() == 0,
            d.history@.len() == 0,
            d.startup_notice is None,
    {
        AppData {
            version: CURRENT_DATA_VERSION,
            settings: Settings::default(),
            active_context: None,
            directories: Vec::new(),
            history: Vec::new(),
            startup_notice: None,
        }
    }
}

/// What the launcher shows when it opens.
#[derive(Debug)]
pub struct LauncherState {
    pub settings: Settings,
    pub active_context: Option<String>,
    pub history: Vec<HistoryItem>,
    pub indexed_directory_count: usize,
}

#[derive(Debug, Clone, Copy, PartialEq, Eq, Structural)]
pub enum CommandActionKind {
    OpenFile,
    CreateDirectory,
}

#[derive(Debug, Clone, Copy, PartialEq, Eq, Structural)]
pub enum OperationKind {
    CreateDirectory,
}

#[derive(Debug)]
pub struct OperationConfirmation {
    pub kind: OperationKind,
    pub title: String,
    pub description: String,
    pub target_path: String,
    pub workspace_path: String,
}

#[derive(Debug)]
pub struct CommandAction {
    pub id: String,
    pub kind: CommandActionKind,
    pub label: String,
    pub description: String,
    pub requires_workspace: bool,
}

#[derive(Debug, Clone, Copy, PartialEq, Eq, Structural)]
pub enum PresentationEntryKind {
    Directory,
    File,
    Symlink,
    Other,
}

#[derive(Debug)]
pub struct PresentationEntry {
    pub name: String,
    pub path: String,
    pub kind: PresentationEntryKind,
    pub size: Option<u64>,
    pub modified_at: Option<u64>,
    pub hidden: bool,
}

#[derive(Debug)]
pub enum PresentationOutput {
    Directory {
        path: String,
        entries: Vec<PresentationEntry>,
        directory_count: usize,
        file_count: usize,
        hidden_count: usize,
        detailed: bool,
        truncated: bool,
    },
    TextFile {
        path: String,
        name: String,
        content: String,
        size: u64,
        line_count: usize,
        language: Option<String>,
    },
}

#[derive(Debug)]
pub enum CommandExecution {
    Launched,
    NeedsContext { message: String },
    ContextUpdated { path: String },
    Confirmation { confirmation: OperationConfirmation },
    OperationCompleted { title: String, message: String, path: String },
    Presented { output: PresentationOutput },
}

/// A command line split into its executable and arguments.
#[derive(Debug)]
pub struct ParsedCommand {
    pub executable: String,
    pub args: Vec<String>,
    /// The argument that names a project directory, when the command searches for one.
    pub directory_arg_index: Option<usize>,
}

/// A parsed command with its arguments taken as a sequence.
pub struct ParsedView {
    pub executable: String,
    pub args: Seq<String>,
    pub directory_arg_index: Option<usize>,
}

impl View for ParsedCommand {
    type V = ParsedView;

    open spec fn view(&self) -> ParsedView {
        ParsedView {
            executable: self.executable,
            args: self.args@,
            directory_arg_index: self.directory_arg_index,
        }
    }
}

impl Clone for ParsedCommand {
    fn clone(&self) -> (r: Self)
        ensures
            r@ == self@,
    {
        ParsedCommand {
            executable: self.executable.clone(),
            args: clone_strings(&self.args),
            directory_arg_index: self.directory_arg_index,
        }
    }
}

} // verus!
