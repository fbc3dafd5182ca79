//! The lock that keeps a portable installation to one instance.

use crate::paths::LocalPath;
use crate::text::texts;
use vstd::prelude::*;

verus! {

/// Where a portable installation keeps its data.
pub struct PortableInfo {
    pub is_portable: bool,
    pub data_dir: LocalPath,
    pub instance_lock_path: LocalPath,
}

pub enum PortableError {
    /// The installation could not be looked up.
    Info(String),
    PortableDataDirectory { path: LocalPath, source: String },
    InstanceLockIo(String),
    InstanceLocked(LocalPath),
}

/// The lock file of the installation; one that is not portable has none.
pub fn portable_instance_lock_path(info: &Result<PortableInfo, String>) -> (r: Result<
    Option<LocalPath>,
    PortableError,
>)
    ensures
        match (*info, r) {
            (Ok(info), Ok(Some(path))) => info.is_portable && path@ == info.instance_lock_path@,
            (Ok(info), Ok(None)) => !info.is_portable,
            (Err(error), Err(PortableError::Info(reason))) => reason@ == error@,
            _ => false,
        },
{
    match info {
        Ok(info) => {
            if info.is_portable {
                Ok(Some(info.instance_lock_path.duplicate()))
            } else {
                Ok(None)
            }
        },
        Err(error) => Err(PortableError::Info(error.clone())),
    }
}

/// What has to be done to get the lock: create the directories, open the file, lock it.
pub struct PortableLockPlan {
    pub directories: Vec<LocalPath>,
    pub data_dir: LocalPath,
    pub lock_path: LocalPath,
}

/// What doing it came to.
pub enum PortableLockOutcome {
    DirectoryFailed(String),
    OpenFailed(String),
    Locked,
    WouldBlock,
    LockFailed(String),
}

/// Plans to take the lock. Nothing is to do for an installation that is not portable and for a
/// lock that is `held` already. `skills_dirname` is the directory of the user's skills.
pub fn plan_portable_instance_lock(
    info: &Result<PortableInfo, String>,
    held: bool,
    skills_dirname: &str,
) -> (r: Result<Option<PortableLockPlan>, PortableError>)
    ensures
        match (*info, r) {
            (Ok(info), Ok(None)) => !info.is_portable || held,
            (Ok(info), Ok(Some(plan))) => {
                &&& info.is_portable && !held
                &&& plan.data_dir@ == info.data_dir@
                &&& plan.lock_path@ == info.instance_lock_path@
                &&& plan.directories@.len() == 2
                &&& plan.directories@[0]@ == info.data_dir@
                &&& plan.directories@[1]@ == info.data_dir@.push(skills_dirname@)
            },
            (Err(error), Err(PortableError::Info(reason))) => reason@ == error@,
            _ => false,
        },
{
    let info = match info {
        Ok(info) => info,
        Err(error) => return Err(PortableError::Info(error.clone())),
    };
    if !info.is_portable || held {
        return Ok(None);
    }
    let mut skills = info.data_dir.duplicate();
    let ghost before = skills.components@;
    skills.components.push(skills_dirname.to_owned());
    assert(skills@ =~= texts(before).push(skills_dirname@));
    let mut directories: Vec<LocalPath> = Vec::new();
    directories.push(info.data_dir.duplicate());
    directories.push(skills);
    Ok(
        Some(
            PortableLockPlan {
                directories,
                data_dir: info.data_dir.duplicate(),
                lock_path: info.instance_lock_path.duplicate(),
            },
        ),
    )
}

/// Ends the attempt to take the lock.
pub fn acquire_portable_instance_lock(plan: PortableLockPlan, outcome: PortableLockOutcome) -> (r:
    Result<(), PortableError>)
    ensures
        match outcome {
            PortableLockOutcome::Locked => r is Ok,
            PortableLockOutcome::DirectoryFailed(reason) => r matches Err(
                PortableError::PortableDataDirectory { path, source },
            ) && path@ == plan.data_dir@ && source@ == reason@,
            PortableLockOutcome::WouldBlock => r matches Err(PortableError::InstanceLocked(path))
                && path@ == plan.data_dir@,
            PortableLockOutcome::OpenFailed(reason) | PortableLockOutcome::LockFailed(reason) =>
                r matches Err(PortableError::InstanceLockIo(source)) && source@ == reason@,
        },
{
    match outcome {
        PortableLockOutcome::Locked => Ok(()),
        PortableLockOutcome::DirectoryFailed(source) => Err(
            PortableError::PortableDataDirectory { path: plan.data_dir, source },
        ),
        PortableLockOutcome::WouldBlock => Err(PortableError::InstanceLocked(plan.data_dir)),
        PortableLockOutcome::OpenFailed(source) => Err(PortableError::InstanceLockIo(source)),
        PortableLockOutcome::LockFailed(source) => Err(PortableError::InstanceLockIo(source)),
    }
}

} // verus!
