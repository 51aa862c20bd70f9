//! The trusted command catalog: which executables the launcher knows and how
//! each of them is run.

use vstd::prelude::*;
use crate::text::str_eq;

verus! {

#[derive(Debug, Clone, Copy, PartialEq, Eq, Structural)]
pub enum CommandCategory {
    Presentation,
    Launcher,
    Operation,
    Navigation,
    Raw,
}

#[derive(Debug, Clone, Copy, PartialEq, Eq, Structural)]
pub enum ExecutionMode {
    Spawn,
    Capture,
    Internal,
}

#[derive(Debug, Clone, Copy, PartialEq, Eq, Structural)]
pub enum ContextRequirement {
    /// No context is needed.
    NoContext,
    Workspace,
    Directory,
    File,
}

#[derive(Debug, Clone, Copy, PartialEq, Eq, Structural)]
pub enum PathIntent {
    /// The command takes no path.
    NoPath,
    Directory,
    File,
    FileOrDirectory,
}

#[derive(Debug, Clone, Copy, PartialEq, Eq, Structural)]
pub enum RiskLevel {
    Safe,
    Confirm,
    Restricted,
}

#[derive(Debug, Clone, Copy, PartialEq, Eq, Structural)]
pub enum SuccessBehavior {
    Hide,
    ShowOutput,
    ShowMessage,
    UpdateContext,
}

/// How one executable of the catalog is run.
#[derive(Debug, Clone, PartialEq, Eq)]
pub struct CommandDefinition {
    pub executable: String,
    pub mapped_executable: String,
    pub injected_args: Vec<String>,
    pub category: CommandCategory,
    pub execution_mode: ExecutionMode,
    pub context_requirement: ContextRequirement,
    pub path_intent: PathIntent,
    pub path_argument_index: Option<usize>,
    pub project_search: bool,
    pub risk_level: RiskLevel,
    pub success_behavior: SuccessBehavior,
}

/// A command definition with its strings taken by their characters.
pub struct DefinitionView {
    pub executable: Seq<char>,
    pub mapped_executable: Seq<char>,
    pub injected_args: Seq<Seq<char>>,
    pub category: CommandCategory,
    pub execution_mode: ExecutionMode,
    pub context_requirement: ContextRequirement,
    pub path_intent: PathIntent,
    pub path_argument_index: Option<usize>,
    pub project_search: bool,
    pub risk_level: RiskLevel,
    pub success_behavior: SuccessBehavior,
}

impl View for CommandDefinition {
    type V = DefinitionView;

    open spec fn view(&self) -> DefinitionView {
        DefinitionView {
            executable: self.executable@,
            mapped_executable: self.mapped_executable@,
            injected_args: self.injected_args.deep_view(),
            category: self.category,
            execution_mode: self.execution_mode,
            context_requirement: self.context_requirement,
            path_intent: self.path_intent,
            path_argument_index: self.path_argument_index,
            project_search: self.project_search,
            risk_level: self.risk_level,
            success_behavior: self.success_behavior,
        }
    }
}

/// `ls` and `ll`: listings shown inside the launcher.
pub open spec fn listing_view(executable: Seq<char>, injected: Seq<Seq<char>>) -> DefinitionView {
    DefinitionView {
        executable,
        mapped_executable: "ls"@,
        injected_args: injected,
        category: CommandCategory::Presentation,
        execution_mode: ExecutionMode::Capture,
        context_requirement: ContextRequirement::Directory,
        path_intent: PathIntent::Directory,
        path_argument_index: None,
        project_search: false,
        risk_level: RiskLevel::Safe,
        success_behavior: SuccessBehavior::ShowOutput,
    }
}

/// `cat`: a text file shown inside the launcher.
pub open spec fn cat_view() -> DefinitionView {
    DefinitionView {
        executable: "cat"@,
        mapped_executable: "cat"@,
        injected_args: seq![],
        category: CommandCategory::Presentation,
        execution_mode: ExecutionMode::Capture,
        context_requirement: ContextRequirement::File,
        path_intent: PathIntent::File,
        path_argument_index: Some(0),
        project_search: false,
        risk_level: RiskLevel::Safe,
        success_behavior: SuccessBehavior::ShowOutput,
    }
}

/// An editor or `open`: started as its own process on a file or directory.
pub open spec fn launcher_view(executable: Seq<char>) -> DefinitionView {
    DefinitionView {
        executable,
        mapped_executable: executable,
        injected_args: seq![],
        category: CommandCategory::Launcher,
        execution_mode: ExecutionMode::Spawn,
        context_requirement: ContextRequirement::NoContext,
        path_intent: PathIntent::FileOrDirectory,
        path_argument_index: Some(0),
        project_search: true,
        risk_level: RiskLevel::Safe,
        success_behavior: SuccessBehavior::Hide,
    }
}

/// `mkdir`: a confirmed directory creation inside a workspace.
pub open spec fn mkdir_view() -> DefinitionView {
    DefinitionView {
        executable: "mkdir"@,
        mapped_executable: "mkdir"@,
        injected_args: seq![],
        category: CommandCategory::Operation,
        execution_mode: ExecutionMode::Internal,
        context_requirement: ContextRequirement::Workspace,
        path_intent: PathIntent::Directory,
        path_argument_index: Some(0),
        project_search: false,
        risk_level: RiskLevel::Confirm,
        success_behavior: SuccessBehavior::ShowMessage,
    }
}

/// `cd`: moves the launcher's active context.
pub open spec fn cd_view() -> DefinitionView {
    DefinitionView {
        executable: "cd"@,
        mapped_executable: "cd"@,
        injected_args: seq![],
        category: CommandCategory::Navigation,
        execution_mode: ExecutionMode::Internal,
        context_requirement: ContextRequirement::Directory,
        path_intent: PathIntent::Directory,
        path_argument_index: Some(0),
        project_search: true,
        risk_level: RiskLevel::Safe,
        success_behavior: SuccessBehavior::UpdateContext,
    }
}

/// What an executable outside the catalog is given.
pub open spec fn raw_view() -> DefinitionView {
    DefinitionView {
        executable: "<raw>"@,
        mapped_executable: "<raw>"@,
        injected_args: seq![],
        category: CommandCategory::Raw,
        execution_mode: ExecutionMode::Spawn,
        context_requirement: ContextRequirement::NoContext,
        path_intent: PathIntent::NoPath,
        path_argument_index: None,
        project_search: false,
        risk_level: RiskLevel::Confirm,
        success_behavior: SuccessBehavior::Hide,
    }
}

/// The executables of the launcher editors, in catalog order.
pub open spec fn is_launcher_name(e: Seq<char>) -> bool {
    e == "code"@ || e == "open"@ || e == "cursor"@ || e == "idea"@ || e == "webstorm"@ || e == "zed"@
}

/// The catalog entry for `e`, or the raw definition when `e` is not in it.
pub open spec fn spec_definition_for(e: Seq<char>) -> DefinitionView {
    if e == "ls"@ {
        listing_view("ls"@, seq![])
    } else if e == "ll"@ {
        listing_view("ll"@, seq!["-al"@])
    } else if e == "cat"@ {
        cat_view()
    } else if is_launcher_name(e) {
        launcher_view(e)
    } else if e == "mkdir"@ {
        mkdir_view()
    } else if e == "cd"@ {
        cd_view()
    } else {
        raw_view()
    }
}

/// The executables of the trusted catalog.
pub open spec fn spec_is_known(e: Seq<char>) -> bool {
    e == "ls"@ || e == "ll"@ || e == "cat"@ || is_launcher_name(e) || e == "mkdir"@ || e == "cd"@
}

fn listing(executable: &str, injected_args: Vec<String>) -> (d: CommandDefinition)
    ensures
        d@ == listing_view(executable@, injected_args.deep_view()),
{
    CommandDefinition {
        executable: executable.to_owned(),
        mapped_executable: "ls".to_owned(),
        injected_args,
        category: CommandCategory::Presentation,
        execution_mode: ExecutionMode::Capture,
        context_requirement: ContextRequirement::Directory,
        path_intent: PathIntent::Directory,
        path_argument_index: None,
        project_search: false,
        risk_level: RiskLevel::Safe,
        success_behavior: SuccessBehavior::ShowOutput,
    }
}

fn launcher(executable: &str) -> (d: CommandDefinition)
    ensures
        d@ == launcher_view(executable@),
{
    let d = CommandDefinition {
        executable: executable.to_owned(),
        mapped_executable: executable.to_owned(),
        injected_args: Vec::new(),
        category: CommandCategory::Launcher,
        execution_mode: ExecutionMode::Spawn,
        context_requirement: ContextRequirement::NoContext,
        path_intent: PathIntent::FileOrDirectory,
        path_argument_index: Some(0),
        project_search: true,
        risk_level: RiskLevel::Safe,
        success_behavior: SuccessBehavior::Hide,
    };
    assert(d.injected_args.deep_view() =~= Seq::<Seq<char>>::empty());
    d
}

fn internal(
    executable: &str,
    category: CommandCategory,
    context_requirement: ContextRequirement,
    path_intent: PathIntent,
    path_argument_index: Option<usize>,
    project_search: bool,
    risk_level: RiskLevel,
    success_behavior: SuccessBehavior,
    execution_mode: ExecutionMode,
) -> (d: CommandDefinition)
    ensures
        d@ == (DefinitionView {
            executable: executable@,
            mapped_executable: executable@,
            injected_args: seq![],
            category,
            execution_mode,
            context_requirement,
            path_intent,
            path_argument_index,
            project_search,
            risk_level,
            success_behavior,
        }),
{
    let d = CommandDefinition {
        executable: executable.to_owned(),
        mapped_executable: executable.to_owned(),
        injected_args: Vec::new(),
        category,
        execution_mode,
        context_requirement,
        path_intent,
        path_argument_index,
        project_search,
        risk_level,
        success_behavior,
    };
    assert(d.injected_args.deep_view() =~= Seq::<Seq<char>>::empty());
    d
}

/// Whether `executable` is in the trusted catalog.
pub fn is_known_command(executable: &str) -> (r: bool)
    ensures
        r == spec_is_known(executable@),
{
    str_eq(executable, "ls") || str_eq(executable, "ll") || str_eq(executable, "cat") || str_eq(
        executable,
        "code",
    ) || str_eq(executable, "open") || str_eq(executable, "cursor") || str_eq(executable, "idea")
        || str_eq(executable, "webstorm") || str_eq(executable, "zed") || str_eq(
        executable,
        "mkdir",
    ) || str_eq(executable, "cd")
}

/// The catalog entry for `executable`; an executable outside the catalog gets
/// the raw definition, which nothing in the launcher runs.
pub fn definition_for(executable: &str) -> (d: CommandDefinition)
    ensures
        d@ == spec_definition_for(executable@),
{
    if str_eq(executable, "ls") {
        let d = listing("ls", Vec::new());
        assert(d.injected_args.deep_view() =~= Seq::<Seq<char>>::empty());
        d
    } else if str_eq(executable, "ll") {
        let args = vec!["-al".to_owned()];
        let d = listing("ll", args);
        assert(d.injected_args.deep_view() =~= seq!["-al"@]);
        d
    } else if str_eq(executable, "cat") {
        internal(
            "cat",
            CommandCategory::Presentation,
            ContextRequirement::File,
            PathIntent::File,
            Some(0),
            false,
            RiskLevel::Safe,
            SuccessBehavior::ShowOutput,
            ExecutionMode::Capture,
        )
    } else if str_eq(executable, "code") || str_eq(executable, "open") || str_eq(executable, "cursor")
        || str_eq(executable, "idea") || str_eq(executable, "webstorm") || str_eq(executable, "zed") {
        launcher(executable)
    } else if str_eq(executable, "mkdir") {
        internal(
            "mkdir",
            CommandCategory::Operation,
            ContextRequirement::Workspace,
            PathIntent::Directory,
            Some(0),
            false,
            RiskLevel::Confirm,
            SuccessBehavior::ShowMessage,
            ExecutionMode::Internal,
        )
    } else if str_eq(executable, "cd") {
        internal(
            "cd",
            CommandCategory::Navigation,
            ContextRequirement::Directory,
            PathIntent::Directory,
            Some(0),
            true,
            RiskLevel::Safe,
            SuccessBehavior::UpdateContext,
            ExecutionMode::Internal,
        )
    } else {
        let d = internal(
            "<raw>",
            CommandCategory::Raw,
            ContextRequirement::NoContext,
            PathIntent::NoPath,
            None,
            false,
            RiskLevel::Confirm,
            SuccessBehavior::Hide,
            ExecutionMode::Spawn,
        );
        d
    }
}

/// An executable is in the catalog exactly when its definition is not the raw one.
pub proof fn lemma_known_iff_not_raw(e: Seq<char>)
    ensures
        spec_is_known(e) <==> spec_definition_for(e).category != CommandCategory::Raw,
{
}

/// Every catalog entry is filed under the executable that looks it up.
pub proof fn lemma_known_entry_names_itself(e: Seq<char>)
    requires
        spec_is_known(e),
    ensures
        spec_definition_for(e).executable == e,
{
}

} // verus!
