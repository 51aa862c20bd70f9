//! Workspace roots as approved places: containment of canonical paths,
//! choice of the root that holds a new directory, and the normalised
//! workspace list of the settings.
//!
//! Functions here take canonical paths from the caller, who resolves them on
//! the filesystem. `roots` always holds, for each configured workspace in
//! order, its canonical path, or `None` where it could not be resolved.

use vstd::prelude::*;
use crate::models::{Settings, SettingsView, Workspace};
use crate::paths::{
    components, components_of, components_prefix, component_count, is_prefix_of,
    path_starts_with, starts_with_path, views,
};
use crate::paths::chars_eq;

verus! {

pub const OUTSIDE_WORKSPACE_MESSAGE: &'static str = "目标目录不在已启用的工作区中";

pub const CONTEXT_NOT_DIRECTORY_MESSAGE: &'static str = "活动上下文必须是文件夹";

pub const MISSING_DIRECTORY_PREFIX: &'static str = "目录不存在: ";

pub const NO_WORKSPACE_FOR_DIRECTORY_MESSAGE: &'static str = "目标目录必须位于已启用的工作区中";

pub const NOT_CONFIGURED_WORKSPACE_MESSAGE: &'static str = "所选目录不在已配置的工作区中";

/// Workspace `i` is enabled and resolved to a canonical root.
pub open spec fn usable_root(ws: Seq<Workspace>, roots: Seq<Option<String>>, i: int) -> bool {
    0 <= i < ws.len() && i < roots.len() && ws[i].enabled && roots[i] is Some
}

/// `path` lies at or below workspace `i`'s canonical root.
pub open spec fn root_holds(ws: Seq<Workspace>, roots: Seq<Option<String>>, i: int, path: Seq<char>) -> bool {
    usable_root(ws, roots, i) && path_starts_with(path, roots[i]->0@)
}

/// `path` lies inside some enabled workspace.
pub open spec fn inside_enabled(ws: Seq<Workspace>, roots: Seq<Option<String>>, path: Seq<char>) -> bool {
    exists|i: int| root_holds(ws, roots, i, path)
}

/// Whether the canonical `path` lies inside an enabled workspace.
pub fn inside_enabled_workspace(path: &str, settings: &Settings, roots: &Vec<Option<String>>) -> (r: bool)
    requires
        roots.len() == settings.workspaces.len(),
    ensures
        r == inside_enabled(settings.workspaces@, roots@, path@),
{
    let path_components = components_of(path);
    let mut i: usize = 0;
    while i < settings.workspaces.len()
        invariant
            roots.len() == settings.workspaces.len(),
            i <= settings.workspaces.len(),
            views(path_components@) == components(path@),
            forall|k: int| 0 <= k < i ==> !root_holds(settings.workspaces@, roots@, k, path@),
        decreases settings.workspaces.len() - i,
    {
        if settings.workspaces[i].enabled {
            match &roots[i] {
                Some(root) => {
                    let root_components = components_of(root.as_str());
                    if components_prefix(&root_components, &path_components) {
                        assert(root_holds(settings.workspaces@, roots@, i as int, path@));
                        return true;
                    }
                },
                None => {},
            }
        }
        i = i + 1;
    }
    false
}

/// Checks that `target` exists (`canonical` is its canonical form, `None`
/// where it could not be resolved) and lies inside an enabled workspace.
pub fn validate_target(
    target: &str,
    canonical: &Option<String>,
    settings: &Settings,
    roots: &Vec<Option<String>>,
) -> (r: Result<(), String>)
    requires
        roots.len() == settings.workspaces.len(),
    ensures
        match canonical {
            None => r matches Err(m) && m@ == MISSING_DIRECTORY_PREFIX@ + target@,
            Some(c) => if inside_enabled(settings.workspaces@, roots@, c@) {
                r is Ok
            } else {
                r matches Err(m) && m@ == OUTSIDE_WORKSPACE_MESSAGE@
            },
        },
{
    match canonical {
        None => {
            let mut m = MISSING_DIRECTORY_PREFIX.to_owned();
            m.append(target);
            Err(m)
        },
        Some(c) => {
            if inside_enabled_workspace(c.as_str(), settings, roots) {
                Ok(())
            } else {
                Err(OUTSIDE_WORKSPACE_MESSAGE.to_owned())
            }
        },
    }
}

/// Settles a requested active context: `canonical` is the canonical form of
/// the request (or the message for a path that could not be resolved) and
/// `is_directory` tells whether it is a directory.
pub fn normalized_context(
    canonical: Result<String, String>,
    is_directory: bool,
    settings: &Settings,
    roots: &Vec<Option<String>>,
) -> (r: Result<String, String>)
    requires
        roots.len() == settings.workspaces.len(),
    ensures
        match canonical {
            Err(m) => r == Err::<String, String>(m),
            Ok(c) => if !is_directory {
                r matches Err(m) && m@ == CONTEXT_NOT_DIRECTORY_MESSAGE@
            } else if inside_enabled(settings.workspaces@, roots@, c@) {
                r matches Ok(p) && p@ == c@
            } else {
                r matches Err(m) && m@ == OUTSIDE_WORKSPACE_MESSAGE@
            },
        },
{
    match canonical {
        Err(m) => Err(m),
        Ok(c) => {
            if !is_directory {
                return Err(CONTEXT_NOT_DIRECTORY_MESSAGE.to_owned());
            }
            if inside_enabled_workspace(c.as_str(), settings, roots) {
                Ok(c)
            } else {
                Err(OUTSIDE_WORKSPACE_MESSAGE.to_owned())
            }
        },
    }
}

/// The active context kept after a change of settings: it stays only while it
/// still resolves to a directory inside an enabled workspace of the new
/// settings (`canonical` and `is_directory` describe it as `normalized_context`
/// takes them).
pub fn retained_context(
    context: Option<String>,
    canonical: Result<String, String>,
    is_directory: bool,
    settings: &Settings,
    roots: &Vec<Option<String>>,
) -> (r: Option<String>)
    requires
        roots.len() == settings.workspaces.len(),
    ensures
        r == match context {
            None => None,
            Some(c) => if canonical is Ok && is_directory && inside_enabled(
                settings.workspaces@,
                roots@,
                canonical->Ok_0@,
            ) {
                Some(c)
            } else {
                None
            },
        },
{
    match context {
        None => None,
        Some(c) => match normalized_context(canonical, is_directory, settings, roots) {
            Ok(_) => Some(c),
            Err(_) => None,
        },
    }
}

/// Workspace `j` is the root that holds `path` most deeply: among the roots
/// that hold it, `j` has the most components, and no later one has as many.
pub open spec fn deepest_root(ws: Seq<Workspace>, roots: Seq<Option<String>>, path: Seq<char>, j: int) -> bool {
    &&& root_holds(ws, roots, j, path)
    &&& forall|i: int| #[trigger] root_holds(ws, roots, i, path) ==> components(roots[i]->0@).len()
        <= components(roots[j]->0@).len()
    &&& forall|i: int| j < i && #[trigger] root_holds(ws, roots, i, path) ==> components(
        roots[i]->0@,
    ).len() < components(roots[j]->0@).len()
}

/// The workspace root that will hold a new directory whose canonical parent
/// is `parent`: the deepest enabled root that holds it (the last of equally
/// deep ones).
pub fn choose_workspace(parent: &str, settings: &Settings, roots: &Vec<Option<String>>) -> (r: Result<
    String,
    String,
>)
    requires
        roots.len() == settings.workspaces.len(),
    ensures
        match r {
            Ok(w) => exists|j: int|
                deepest_root(settings.workspaces@, roots@, parent@, j) && w@ == roots@[j]->0@,
            Err(m) => !inside_enabled(settings.workspaces@, roots@, parent@) && m@
                == NO_WORKSPACE_FOR_DIRECTORY_MESSAGE@,
        },
{
    let ghost ws = settings.workspaces@;
    let mut best: Option<usize> = None;
    let mut best_depth: usize = 0;
    let mut i: usize = 0;
    while i < settings.workspaces.len()
        invariant
            roots.len() == settings.workspaces.len(),
            ws == settings.workspaces@,
            i <= ws.len(),
            best is None ==> forall|k: int| 0 <= k < i ==> !root_holds(ws, roots@, k, parent@),
            best matches Some(j) ==> {
                &&& j < i
                &&& root_holds(ws, roots@, j as int, parent@)
                &&& best_depth == components(roots@[j as int]->0@).len()
                &&& forall|k: int| 0 <= k < i && #[trigger] root_holds(ws, roots@, k, parent@)
                    ==> components(roots@[k]->0@).len() <= best_depth
                &&& forall|k: int| j < k < i && #[trigger] root_holds(ws, roots@, k, parent@)
                    ==> components(roots@[k]->0@).len() < best_depth
            },
        decreases ws.len() - i,
    {
        if settings.workspaces[i].enabled {
            match &roots[i] {
                Some(root) => {
                    if starts_with_path(parent, root.as_str()) {
                        let depth = component_count(root.as_str());
                        if best.is_none() || depth >= best_depth {
                            best = Some(i);
                            best_depth = depth;
                        }
                    }
                },
                None => {},
            }
        }
        i = i + 1;
    }
    match best {
        None => Err(NO_WORKSPACE_FOR_DIRECTORY_MESSAGE.to_owned()),
        Some(j) => {
            assert(deepest_root(ws, roots@, parent@, j as int));
            match &roots[j] {
                Some(root) => Ok(root.clone()),
                None => Err(NO_WORKSPACE_FOR_DIRECTORY_MESSAGE.to_owned()),
            }
        },
    }
}

/// `selected` is, component for component, the root of an enabled workspace.
pub open spec fn is_configured_root(ws: Seq<Workspace>, roots: Seq<Option<String>>, selected: Seq<char>) -> bool {
    exists|i: int| usable_root(ws, roots, i) && components(roots[i]->0@) == components(selected)
}

/// Checks that the canonical `selected` path is itself one of the enabled
/// workspace roots (compared component by component).
pub fn check_selected_workspace(selected: &str, settings: &Settings, roots: &Vec<Option<String>>) -> (r:
    Result<(), String>)
    requires
        roots.len() == settings.workspaces.len(),
    ensures
        r is Ok <==> is_configured_root(settings.workspaces@, roots@, selected@),
        r matches Err(m) ==> m@ == NOT_CONFIGURED_WORKSPACE_MESSAGE@,
{
    let selected_components = components_of(selected);
    let mut i: usize = 0;
    while i < settings.workspaces.len()
        invariant
            roots.len() == settings.workspaces.len(),
            i <= settings.workspaces.len(),
            views(selected_components@) == components(selected@),
            forall|k: int|
                0 <= k < i ==> !(usable_root(settings.workspaces@, roots@, k) && components(
                    roots@[k]->0@,
                ) == components(selected@)),
        decreases settings.workspaces.len() - i,
    {
        if settings.workspaces[i].enabled {
            match &roots[i] {
                Some(root) => {
                    let root_components = components_of(root.as_str());
                    if components_prefix(&root_components, &selected_components)
                        && root_components.len() == selected_components.len() {
                        assert(views(selected_components@).subrange(
                            0,
                            root_components.len() as int,
                        ) =~= views(selected_components@));
                        assert(usable_root(settings.workspaces@, roots@, i as int) && components(
                            roots@[i as int]->0@,
                        ) == components(selected@));
                        return Ok(());
                    }
                    proof {
                        if components(roots@[i as int]->0@) == components(selected@) {
                            assert(views(selected_components@).subrange(
                                0,
                                root_components.len() as int,
                            ) =~= views(selected_components@));
                        }
                    }
                },
                None => {},
            }
        }
        i = i + 1;
    }
    Err(NOT_CONFIGURED_WORKSPACE_MESSAGE.to_owned())
}

/// The canonical path of workspace `i` differs, component for component,
/// from those of all earlier workspaces.
pub open spec fn first_of_its_path(canon: Seq<String>, i: int) -> bool {
    forall|k: int| 0 <= k < i ==> components(canon[k]@) != components(canon[i]@)
}

/// The first `n` workspaces with canonical paths, each path kept only at its
/// first occurrence: pairs of path and enabled flag.
pub open spec fn deduplicated(ws: Seq<Workspace>, canon: Seq<String>, n: int) -> Seq<(Seq<char>, bool)>
    decreases n,
{
    if n <= 0 {
        seq![]
    } else {
        let prev = deduplicated(ws, canon, n - 1);
        if first_of_its_path(canon, n - 1) {
            prev.push((canon[n - 1]@, ws[n - 1].enabled))
        } else {
            prev
        }
    }
}

/// Workspaces as pairs of path and enabled flag.
pub open spec fn workspace_pairs(ws: Seq<Workspace>) -> Seq<(Seq<char>, bool)> {
    ws.map_values(|w: Workspace| (w.path@, w.enabled))
}

/// The default workspace that survives normalisation: its canonical form,
/// when that is the path of a normalised workspace.
pub open spec fn kept_default(ws: Seq<Workspace>, canonical_default: Option<String>) -> Option<Seq<char>> {
    match canonical_default {
        Some(d) => if exists|k: int| 0 <= k < ws.len() && ws[k].path@ == d@ {
            Some(d@)
        } else {
            None
        },
        None => None,
    }
}

/// Every kept pair comes from a workspace whose path occurs there first.
pub open spec fn kept_from_first(ws: Seq<Workspace>, canon: Seq<String>, n: int, a: int) -> bool {
    exists|k: int|
        0 <= k < n && first_of_its_path(canon, k) && deduplicated(ws, canon, n)[a] == (
            canon[k]@,
            ws[k].enabled,
        )
}

proof fn lemma_deduplicated_origin(ws: Seq<Workspace>, canon: Seq<String>, n: int)
    requires
        0 <= n <= ws.len(),
        n <= canon.len(),
    ensures
        forall|a: int| 0 <= a < deduplicated(ws, canon, n).len() ==> #[trigger] kept_from_first(ws, canon, n, a),
        forall|a: int, b: int|
            0 <= a < b < deduplicated(ws, canon, n).len() ==> components(
                #[trigger] deduplicated(ws, canon, n)[a].0,
            ) != components(#[trigger] deduplicated(ws, canon, n)[b].0),
    decreases n,
{
    if n > 0 {
        lemma_deduplicated_origin(ws, canon, n - 1);
        let prev = deduplicated(ws, canon, n - 1);
        let cur = deduplicated(ws, canon, n);
        assert forall|a: int| 0 <= a < cur.len() implies #[trigger] kept_from_first(ws, canon, n, a) by {
            if a < prev.len() {
                assert(kept_from_first(ws, canon, n - 1, a));
                let k = choose|k: int|
                    0 <= k < n - 1 && first_of_its_path(canon, k) && prev[a] == (
                        canon[k]@,
                        ws[k].enabled,
                    );
                assert(cur[a] == prev[a]);
                assert(0 <= k < n && first_of_its_path(canon, k) && cur[a] == (canon[k]@, ws[k].enabled));
            } else {
                assert(first_of_its_path(canon, n - 1));
                assert(cur[a] == (canon[n - 1]@, ws[n - 1].enabled));
            }
        }
        assert forall|a: int, b: int|
            0 <= a < b < cur.len() implies components(#[trigger] cur[a].0) != components(
                #[trigger] cur[b].0,
            ) by {
            if b < prev.len() {
                assert(cur[a] == prev[a] && cur[b] == prev[b]);
            } else {
                assert(cur[a] == prev[a]);
                assert(kept_from_first(ws, canon, n - 1, a));
                let k = choose|k: int|
                    0 <= k < n - 1 && first_of_its_path(canon, k) && prev[a] == (
                        canon[k]@,
                        ws[k].enabled,
                    );
                assert(cur[b].0 == canon[n - 1]@);
            }
        }
    }
}

fn same_components(a: &Vec<Vec<char>>, b: &Vec<Vec<char>>) -> (r: bool)
    ensures
        r == (views(a@) == views(b@)),
{
    let p = components_prefix(a, b);
    let r = p && a.len() == b.len();
    proof {
        assert(views(a@).len() == a@.len());
        assert(views(b@).len() == b@.len());
        if views(a@) == views(b@) {
            assert(views(b@).subrange(0, views(a@).len() as int) =~= views(a@));
        }
        if p && a.len() == b.len() {
            assert(views(b@).subrange(0, a.len() as int) =~= views(b@));
        }
    }
    r
}

/// Replaces the workspaces by their canonical paths (`canonical[i]` for
/// workspace `i`), keeping each path only at its first occurrence, and keeps
/// the default workspace (`canonical_default`, its canonical form) only when
/// it is one of the resulting paths.
pub fn normalize_workspaces(
    settings: &mut Settings,
    canonical: Vec<String>,
    canonical_default: Option<String>,
)
    requires
        canonical.len() == old(settings).workspaces.len(),
    ensures
        workspace_pairs(final(settings).workspaces@) == deduplicated(
            old(settings).workspaces@,
            canonical@,
            canonical@.len() as int,
        ),
        final(settings).shortcut == old(settings).shortcut,
        final(settings).default_workspace.deep_view() == kept_default(
            final(settings).workspaces@,
            canonical_default,
        ),
{
    let ghost ws = settings.workspaces@;
    let mut normalized: Vec<Workspace> = Vec::new();
    let mut seen: Vec<Vec<Vec<char>>> = Vec::new();
    let mut i: usize = 0;
    while i < canonical.len()
        invariant
            canonical.len() == ws.len(),
            ws == settings.workspaces@,
            i <= canonical.len(),
            seen@.len() == i,
            forall|k: int| 0 <= k < i ==> views(#[trigger] seen@[k]@) == components(canonical@[k]@),
            workspace_pairs(normalized@) == deduplicated(ws, canonical@, i as int),
        decreases canonical.len() - i,
    {
        let current = components_of(canonical[i].as_str());
        let mut first = true;
        let mut k: usize = 0;
        while k < i
            invariant
                k <= i,
                i < canonical.len(),
                seen@.len() == i,
                forall|m: int| 0 <= m < i ==> views(#[trigger] seen@[m]@) == components(canonical@[m]@),
                views(current@) == components(canonical@[i as int]@),
                first == forall|m: int| 0 <= m < k ==> components(canonical@[m]@) != components(
                    canonical@[i as int]@,
                ),
            decreases i - k,
        {
            if same_components(&seen[k], &current) {
                first = false;
            }
            k = k + 1;
        }
        assert(first == first_of_its_path(canonical@, i as int));
        if first {
            let w = Workspace { path: canonical[i].clone(), enabled: settings.workspaces[i].enabled };
            let ghost before = normalized@;
            normalized.push(w);
            assert(workspace_pairs(normalized@) =~= workspace_pairs(before).push(
                (canonical@[i as int]@, ws[i as int].enabled),
            ));
        }
        seen.push(current);
        i = i + 1;
    }
    let default = match canonical_default {
        Some(d) => {
            let mut found = false;
            let mut j: usize = 0;
            while j < normalized.len()
                invariant
                    j <= normalized.len(),
                    found == exists|m: int| 0 <= m < j && normalized@[m].path@ == d@,
                decreases normalized.len() - j,
            {
                if normalized[j].path == d {
                    found = true;
                }
                j = j + 1;
            }
            if found {
                Some(d)
            } else {
                None
            }
        },
        None => None,
    };
    settings.workspaces = normalized;
    settings.default_workspace = default;
}

/// After normalisation no two workspaces share a path (compared component
/// by component), and a default workspace is always one of them.
pub proof fn lemma_normalized_workspaces_are_distinct(
    ws: Seq<Workspace>,
    canon: Seq<String>,
    a: int,
    b: int,
)
    requires
        canon.len() == ws.len(),
        0 <= a < b < deduplicated(ws, canon, canon.len() as int).len(),
    ensures
        components(deduplicated(ws, canon, canon.len() as int)[a].0) != components(
            deduplicated(ws, canon, canon.len() as int)[b].0,
        ),
{
    lemma_deduplicated_origin(ws, canon, canon.len() as int);
}

} // verus!
