//! The persisted state's versioning and the recovery policy applied when it
//! is loaded or overwritten. The files themselves are read and written by the
//! caller; these functions decide what is kept, restored or refused.

use vstd::prelude::*;
use crate::errors::{render_user_error, user_message};
use crate::models::{AppData, AppDataView, CURRENT_DATA_VERSION};
use crate::text::{decimal, decimal_string};

verus! {

pub const INVALID_VERSION_MESSAGE: &'static str = "应用数据版本无效，无法自动迁移";

pub const READ_FAILED_MESSAGE: &'static str = "无法读取应用数据";

pub const BACKUP_READ_FAILED_MESSAGE: &'static str = "无法读取应用数据备份";

pub const EXISTING_READ_FAILED_MESSAGE: &'static str = "无法读取现有应用数据";

pub const EXISTING_CORRUPT_MESSAGE: &'static str = "现有应用数据已损坏，请重启应用以进入恢复流程";

pub const RESTORED_FROM_BACKUP_NOTICE: &'static str = "主状态文件缺失，已从最近的有效备份恢复。";

/// The refusal to open state written by a newer release.
pub open spec fn future_version_text(version: u32) -> Seq<char> {
    "应用数据来自更新版本（数据版本 "@ + decimal(version as nat) + "），请升级 Quick Command 后再打开"@
}

pub fn future_version_message(version: u32) -> (r: String)
    ensures
        r@ == future_version_text(version),
{
    let mut r = "应用数据来自更新版本（数据版本 ".to_owned();
    let digits = decimal_string(version);
    r.append(digits.as_str());
    r.append("），请升级 Quick Command 后再打开");
    r
}

/// The data after migration to the current version, or the refusal.
pub open spec fn migrated(d: AppDataView) -> Result<AppDataView, Seq<char>> {
    if d.version > CURRENT_DATA_VERSION {
        Err(future_version_text(d.version))
    } else if d.version == 1 || d.version == CURRENT_DATA_VERSION {
        Ok(AppDataView { version: CURRENT_DATA_VERSION, ..d })
    } else {
        Err(INVALID_VERSION_MESSAGE@)
    }
}

/// Brings `data` to the current version, one version step at a time; data
/// from a newer release and versions no step starts from are refused.
pub fn migrate(data: &mut AppData) -> (r: Result<(), String>)
    ensures
        match migrated(old(data)@) {
            Ok(d) => r is Ok && final(data)@ == d,
            Err(m) => r matches Err(e) && e@ == m,
        },
        r is Err ==> final(data)@ == old(data)@,
{
    if data.version > CURRENT_DATA_VERSION {
        return Err(future_version_message(data.version));
    }
    while data.version < CURRENT_DATA_VERSION
        invariant
            old(data).version <= CURRENT_DATA_VERSION,
            data.version == old(data).version || (old(data).version == 1 && data.version
                == CURRENT_DATA_VERSION),
            data@ == (AppDataView { version: data.version, ..old(data)@ }),
        decreases CURRENT_DATA_VERSION - data.version,
    {
        if data.version == 1 {
            data.version = 2;
        } else {
            return Err(INVALID_VERSION_MESSAGE.to_owned());
        }
    }
    Ok(())
}

/// Why a state file could not be used.
#[derive(Debug)]
pub enum StateReadError {
    /// The file could not be read; the system's detail.
    Io(String),
    /// The file is not a state document this library understands.
    Invalid,
    /// The file was written by a newer release.
    FutureVersion(u32),
}

/// A state file, as far as reading told.
#[derive(Debug)]
pub enum StateRead {
    /// There is no such file.
    Missing,
    /// The data, migrated, and whether migration changed its version.
    Loaded(AppData, bool),
    Failed(StateReadError),
}

/// Classifies a parsed state document: `version_field` is its `version`
/// member read as an unsigned integer, `decoded` the document read as
/// [`AppData`] (`None` where that failed).
pub fn classify_state(version_field: Option<u64>, decoded: Option<AppData>) -> (r: Result<
    (AppData, bool),
    StateReadError,
>)
    ensures
        match version_field {
            None => r matches Err(StateReadError::Invalid),
            Some(v) => if v > u32::MAX {
                r matches Err(StateReadError::Invalid)
            } else if v > CURRENT_DATA_VERSION {
                r matches Err(StateReadError::FutureVersion(f)) && f == v
            } else {
                match decoded {
                    None => r matches Err(StateReadError::Invalid),
                    Some(d) => match migrated(d@) {
                        Err(_) => r matches Err(StateReadError::Invalid),
                        Ok(m) => r matches Ok((data, changed)) && data@ == m && changed == (v
                            != CURRENT_DATA_VERSION),
                    },
                }
            },
        },
{
    let version = match version_field {
        None => return Err(StateReadError::Invalid),
        Some(v) => v,
    };
    if version > 4294967295u64 {
        return Err(StateReadError::Invalid);
    }
    let previous = version as u32;
    if previous > CURRENT_DATA_VERSION {
        return Err(StateReadError::FutureVersion(previous));
    }
    let mut data = match decoded {
        None => return Err(StateReadError::Invalid),
        Some(d) => d,
    };
    match migrate(&mut data) {
        Err(_) => Err(StateReadError::Invalid),
        Ok(()) => Ok((data, previous != CURRENT_DATA_VERSION)),
    }
}

/// What loading does with the primary state file and its backup.
#[derive(Debug)]
pub enum LoadPlan {
    /// Refuse to start; nothing is written.
    Fail(String),
    /// Neither file exists: start empty; nothing is written.
    StartEmpty,
    /// Use the primary file; when `rewrite` is set it was migrated and is
    /// saved again (keeping the previous file as the backup).
    UsePrimary(AppData, bool),
    /// The primary file is missing: write the backup's data as the primary file.
    RestoreMissing(AppData),
    /// The primary file is missing and the backup is corrupt: keep a copy of
    /// the backup, then write empty data as the primary file.
    ReplaceCorruptBackup,
    /// The primary file is corrupt: keep a copy of it, then write the backup's
    /// data as the primary file.
    RecoverFromBackup(AppData),
    /// The primary file is corrupt and no backup is usable: keep a copy of it,
    /// then write empty data as the primary file.
    ReplaceCorruptPrimary,
    /// The primary file is corrupt and the backup cannot be used: keep a copy
    /// of the primary file, then refuse to start.
    PreserveThenFail(String),
}

/// The recovery policy: `primary` and `backup` are what reading the two files
/// gave; `include_detail` selects whether read errors carry system detail.
pub fn plan_load(primary: StateRead, backup: StateRead, include_detail: bool) -> (r: LoadPlan)
    ensures
        primary matches StateRead::Failed(StateReadError::FutureVersion(v)) ==> r matches LoadPlan::Fail(
            m,
        ) && m@ == future_version_text(v),
        primary matches StateRead::Failed(StateReadError::Io(d)) ==> r matches LoadPlan::Fail(m)
            && m@ == user_message(READ_FAILED_MESSAGE@, d@, include_detail),
        primary matches StateRead::Loaded(p, migrated) ==> r matches LoadPlan::UsePrimary(data, rewrite)
            && data@ == p@ && rewrite == migrated,
        primary is Missing ==> match backup {
            StateRead::Missing => r is StartEmpty,
            StateRead::Loaded(b, _) => r matches LoadPlan::RestoreMissing(data) && data@ == b@,
            StateRead::Failed(StateReadError::FutureVersion(v)) => r matches LoadPlan::Fail(m)
                && m@ == future_version_text(v),
            StateRead::Failed(StateReadError::Io(d)) => r matches LoadPlan::Fail(m) && m@
                == user_message(BACKUP_READ_FAILED_MESSAGE@, d@, include_detail),
            StateRead::Failed(StateReadError::Invalid) => r is ReplaceCorruptBackup,
        },
        primary matches StateRead::Failed(StateReadError::Invalid) ==> match backup {
            StateRead::Loaded(b, _) => r matches LoadPlan::RecoverFromBackup(data) && data@ == b@,
            StateRead::Failed(StateReadError::FutureVersion(v)) => r matches LoadPlan::PreserveThenFail(
                m,
            ) && m@ == future_version_text(v),
            StateRead::Failed(StateReadError::Io(d)) => r matches LoadPlan::PreserveThenFail(m)
                && m@ == user_message(BACKUP_READ_FAILED_MESSAGE@, d@, include_detail),
            _ => r is ReplaceCorruptPrimary,
        },
{
    match primary {
        StateRead::Loaded(data, migrated) => LoadPlan::UsePrimary(data, migrated),
        StateRead::Failed(StateReadError::FutureVersion(v)) => LoadPlan::Fail(
            future_version_message(v),
        ),
        StateRead::Failed(StateReadError::Io(d)) => LoadPlan::Fail(
            render_user_error(READ_FAILED_MESSAGE, d.as_str(), include_detail),
        ),
        StateRead::Missing => match backup {
            StateRead::Missing => LoadPlan::StartEmpty,
            StateRead::Loaded(data, _) => LoadPlan::RestoreMissing(data),
            StateRead::Failed(StateReadError::FutureVersion(v)) => LoadPlan::Fail(
                future_version_message(v),
            ),
            StateRead::Failed(StateReadError::Io(d)) => LoadPlan::Fail(
                render_user_error(BACKUP_READ_FAILED_MESSAGE, d.as_str(), include_detail),
            ),
            StateRead::Failed(StateReadError::Invalid) => LoadPlan::ReplaceCorruptBackup,
        },
        StateRead::Failed(StateReadError::Invalid) => match backup {
            StateRead::Loaded(data, _) => LoadPlan::RecoverFromBackup(data),
            StateRead::Failed(StateReadError::FutureVersion(v)) => LoadPlan::PreserveThenFail(
                future_version_message(v),
            ),
            StateRead::Failed(StateReadError::Io(d)) => LoadPlan::PreserveThenFail(
                render_user_error(BACKUP_READ_FAILED_MESSAGE, d.as_str(), include_detail),
            ),
            _ => LoadPlan::ReplaceCorruptPrimary,
        },
    }
}

/// The notice shown after restoring a missing primary file from the backup.
pub fn restored_notice() -> (r: String)
    ensures
        r@ == RESTORED_FROM_BACKUP_NOTICE@,
{
    RESTORED_FROM_BACKUP_NOTICE.to_owned()
}

pub open spec fn corrupt_backup_text(preserved: Seq<char>) -> Seq<char> {
    "应用数据备份已损坏，已保留为 "@ + preserved + "，当前使用空白状态。"@
}

pub open spec fn recovered_text(preserved: Seq<char>) -> Seq<char> {
    "应用数据已损坏，原文件已保留为 "@ + preserved + "，并从最近备份恢复。"@
}

pub open spec fn corrupt_without_backup_text(preserved: Seq<char>) -> Seq<char> {
    "应用数据已损坏且没有有效备份，原文件已保留为 "@ + preserved + "，当前使用空白状态。"@
}

fn framed(before: &str, preserved: &str, after: &str) -> (r: String)
    ensures
        r@ == before@ + preserved@ + after@,
{
    let mut r = before.to_owned();
    r.append(preserved);
    r.append(after);
    r
}

/// The notice after a corrupt backup was kept under the name `preserved`.
pub fn corrupt_backup_notice(preserved: &str) -> (r: String)
    ensures
        r@ == corrupt_backup_text(preserved@),
{
    framed("应用数据备份已损坏，已保留为 ", preserved, "，当前使用空白状态。")
}

/// The notice after a corrupt primary file, kept as `preserved`, was replaced
/// by the backup.
pub fn recovered_notice(preserved: &str) -> (r: String)
    ensures
        r@ == recovered_text(preserved@),
{
    framed("应用数据已损坏，原文件已保留为 ", preserved, "，并从最近备份恢复。")
}

/// The notice after a corrupt primary file, kept as `preserved`, was replaced
/// by empty data.
pub fn corrupt_without_backup_notice(preserved: &str) -> (r: String)
    ensures
        r@ == corrupt_without_backup_text(preserved@),
{
    framed("应用数据已损坏且没有有效备份，原文件已保留为 ", preserved, "，当前使用空白状态。")
}

/// Before a save that keeps the previous file: whether the existing file is
/// copied to the backup (`Ok(true)`), absent (`Ok(false)`), or blocks the
/// save. An existing file that cannot be understood is never replaced.
pub fn check_existing_before_save(existing: StateRead, include_detail: bool) -> (r: Result<
    bool,
    String,
>)
    ensures
        match existing {
            StateRead::Missing => r == Ok::<bool, String>(false),
            StateRead::Loaded(_, _) => r == Ok::<bool, String>(true),
            StateRead::Failed(StateReadError::FutureVersion(v)) => r matches Err(m) && m@
                == future_version_text(v),
            StateRead::Failed(StateReadError::Io(d)) => r matches Err(m) && m@ == user_message(
                EXISTING_READ_FAILED_MESSAGE@,
                d@,
                include_detail,
            ),
            StateRead::Failed(StateReadError::Invalid) => r matches Err(m) && m@
                == EXISTING_CORRUPT_MESSAGE@,
        },
{
    match existing {
        StateRead::Missing => Ok(false),
        StateRead::Loaded(_, _) => Ok(true),
        StateRead::Failed(StateReadError::FutureVersion(v)) => Err(future_version_message(v)),
        StateRead::Failed(StateReadError::Io(d)) => Err(
            render_user_error(EXISTING_READ_FAILED_MESSAGE, d.as_str(), include_detail),
        ),
        StateRead::Failed(StateReadError::Invalid) => Err(EXISTING_CORRUPT_MESSAGE.to_owned()),
    }
}

/// Migration is idempotent: migrated data migrates to itself.
pub proof fn lemma_migrate_idempotent(d: AppDataView)
    requires
        migrated(d) is Ok,
    ensures
        migrated(migrated(d)->Ok_0) == migrated(d),
        migrated(d)->Ok_0.version == CURRENT_DATA_VERSION,
{
}

} // verus!
