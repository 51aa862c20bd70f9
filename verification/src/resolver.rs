//! Where a command-line tool is looked for: the directories of `PATH`, the
//! user's own bin directories, the usual system ones, and the command-line
//! helpers inside known application bundles.

use vstd::prelude::*;
use crate::paths::{join, path_join};
use crate::text::str_eq;

verus! {

/// The helpers of known applications, relative to an applications folder.
pub open spec fn bundle_paths(executable: Seq<char>) -> Seq<Seq<char>> {
    if executable == "code"@ {
        seq!["Visual Studio Code.app/Contents/Resources/app/bin/code"@]
    } else if executable == "cursor"@ {
        seq!["Cursor.app/Contents/Resources/app/bin/cursor"@]
    } else if executable == "zed"@ {
        seq!["Zed.app/Contents/MacOS/zed"@]
    } else if executable == "idea"@ {
        seq!["IntelliJ IDEA.app/Contents/MacOS/idea"@, "IntelliJ IDEA CE.app/Contents/MacOS/idea"@]
    } else if executable == "webstorm"@ {
        seq!["WebStorm.app/Contents/MacOS/webstorm"@]
    } else {
        seq![]
    }
}

/// For each helper in turn: its place under `/Applications`, then under the
/// user's own `Applications` folder when the home directory is known.
pub open spec fn application_paths(relative: Seq<Seq<char>>, home: Option<Seq<char>>) -> Seq<Seq<char>>
    decreases relative.len(),
{
    if relative.len() == 0 {
        seq![]
    } else {
        let rel = relative.last();
        let here = match home {
            Some(h) => seq![join("/Applications"@, rel), join(join(h, "Applications"@), rel)],
            None => seq![join("/Applications"@, rel)],
        };
        application_paths(relative.drop_last(), home) + here
    }
}

/// `executable` below each directory of `dirs`, in order.
pub open spec fn below_each(dirs: Seq<Seq<char>>, executable: Seq<char>) -> Seq<Seq<char>> {
    dirs.map_values(|d: Seq<char>| join(d, executable))
}

/// The system directories searched after the user's own.
pub open spec fn system_dirs() -> Seq<Seq<char>> {
    seq!["/opt/homebrew/bin"@, "/usr/local/bin"@, "/usr/bin"@, "/bin"@]
}

/// Every place `executable` is looked for, in the order they are tried.
pub open spec fn spec_candidate_paths(executable: Seq<char>, path_dirs: Seq<Seq<char>>, home: Option<Seq<char>>) -> Seq<
    Seq<char>,
> {
    let user = match home {
        Some(h) => seq![join(join(h, ".local/bin"@), executable), join(join(h, "bin"@), executable)],
        None => seq![],
    };
    below_each(path_dirs, executable) + user + below_each(system_dirs(), executable) + application_paths(
        bundle_paths(executable),
        home,
    )
}

fn bundle_paths_of(executable: &str) -> (r: Vec<&'static str>)
    ensures
        r@.map_values(|s: &str| s@) == bundle_paths(executable@),
{
    let mut r: Vec<&'static str> = Vec::new();
    if str_eq(executable, "code") {
        r.push("Visual Studio Code.app/Contents/Resources/app/bin/code");
    } else if str_eq(executable, "cursor") {
        r.push("Cursor.app/Contents/Resources/app/bin/cursor");
    } else if str_eq(executable, "zed") {
        r.push("Zed.app/Contents/MacOS/zed");
    } else if str_eq(executable, "idea") {
        r.push("IntelliJ IDEA.app/Contents/MacOS/idea");
        r.push("IntelliJ IDEA CE.app/Contents/MacOS/idea");
    } else if str_eq(executable, "webstorm") {
        r.push("WebStorm.app/Contents/MacOS/webstorm");
    }
    assert(r@.map_values(|s: &str| s@) =~= bundle_paths(executable@));
    r
}

/// The helpers of the application that provides `executable`, under
/// `/Applications` and under the user's `Applications` folder.
pub fn application_cli_paths(executable: &str, home: Option<&str>) -> (r: Vec<String>)
    ensures
        r.deep_view() == application_paths(
            bundle_paths(executable@),
            match home {
                Some(h) => Some(h@),
                None => None,
            },
        ),
{
    let relative = bundle_paths_of(executable);
    let ghost rels = relative@.map_values(|s: &str| s@);
    let ghost h = match home {
        Some(h) => Some(h@),
        None => None,
    };
    let mut r: Vec<String> = Vec::new();
    let mut i: usize = 0;
    assert(rels.subrange(0, 0) =~= Seq::<Seq<char>>::empty());
    while i < relative.len()
        invariant
            i <= relative@.len(),
            rels == relative@.map_values(|s: &str| s@),
            h == match home {
                Some(h) => Some(h@),
                None => None::<Seq<char>>,
            },
            r.deep_view() == application_paths(rels.subrange(0, i as int), h),
        decreases relative.len() - i,
    {
        let ghost before = r.deep_view();
        assert(rels.subrange(0, i + 1).drop_last() =~= rels.subrange(0, i as int));
        assert(rels.subrange(0, i + 1).last() == relative@[i as int]@);
        let rel = relative[i];
        r.push(path_join("/Applications", rel));
        match home {
            Some(home_dir) => {
                let apps = path_join(home_dir, "Applications");
                r.push(path_join(apps.as_str(), rel));
            },
            None => {},
        }
        proof {
            let here = match h {
                Some(hh) => seq![join("/Applications"@, rel@), join(join(hh, "Applications"@), rel@)],
                None => seq![join("/Applications"@, rel@)],
            };
            assert(r.deep_view() =~= before + here);
        }
        i = i + 1;
    }
    assert(rels.subrange(0, relative@.len() as int) =~= rels);
    r
}

/// Every place `executable` is looked for, in order: each directory of
/// `PATH`, `~/.local/bin` and `~/bin`, the system directories, and the
/// helpers of known application bundles.
pub fn candidate_paths(executable: &str, path_dirs: &Vec<String>, home: Option<&str>) -> (r: Vec<String>)
    ensures
        r.deep_view() == spec_candidate_paths(
            executable@,
            path_dirs.deep_view(),
            match home {
                Some(h) => Some(h@),
                None => None,
            },
        ),
{
    let mut r: Vec<String> = Vec::new();
    let mut i: usize = 0;
    while i < path_dirs.len()
        invariant
            i <= path_dirs@.len(),
            r.deep_view() == below_each(path_dirs.deep_view().subrange(0, i as int), executable@),
        decreases path_dirs.len() - i,
    {
        let ghost before = r.deep_view();
        let joined = path_join(path_dirs[i].as_str(), executable);
        r.push(joined);
        assert(path_dirs.deep_view()[i as int] == path_dirs@[i as int]@);
        assert(r.deep_view() =~= before.push(joined@));
        assert(below_each(path_dirs.deep_view().subrange(0, i + 1), executable@) =~= below_each(
            path_dirs.deep_view().subrange(0, i as int),
            executable@,
        ).push(joined@));
        assert(r.deep_view() =~= below_each(path_dirs.deep_view().subrange(0, i + 1), executable@));
        i = i + 1;
    }
    assert(path_dirs.deep_view().subrange(0, path_dirs@.len() as int) =~= path_dirs.deep_view());
    let ghost from_path = r.deep_view();
    match home {
        Some(home_dir) => {
            let local = path_join(home_dir, ".local/bin");
            r.push(path_join(local.as_str(), executable));
            let bin = path_join(home_dir, "bin");
            r.push(path_join(bin.as_str(), executable));
        },
        None => {},
    }
    let ghost with_user = r.deep_view();
    r.push(path_join("/opt/homebrew/bin", executable));
    r.push(path_join("/usr/local/bin", executable));
    r.push(path_join("/usr/bin", executable));
    r.push(path_join("/bin", executable));
    proof {
        assert(r.deep_view() =~= with_user + below_each(system_dirs(), executable@));
    }
    let ghost with_system = r.deep_view();
    let mut apps = application_cli_paths(executable, home);
    let ghost app_view = apps.deep_view();
    r.append(&mut apps);
    assert(r.deep_view() =~= with_system + app_view);
    r
}

/// The message when `executable` is found nowhere.
pub open spec fn not_found_text(executable: Seq<char>) -> Seq<char> {
    "未找到命令 "@ + executable + "，请确认对应应用已安装，并已启用它的命令行工具"@
}

/// The message when `executable` is found nowhere.
pub fn not_found_message(executable: &str) -> (r: String)
    ensures
        r@ == not_found_text(executable@),
{
    let mut r = "未找到命令 ".to_owned();
    r.append(executable);
    r.append("，请确认对应应用已安装，并已启用它的命令行工具");
    r
}

} // verus!
