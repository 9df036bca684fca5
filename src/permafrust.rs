//! The archive lifecycle: the decisions of `watch`, `unwatch`, `create`,
//! `update`, `delete`, `extract` and `check`.  Each operation looks rows up
//! in the catalog and probes the disk, asks one of these functions what to
//! do, runs the engine commands it gets back, and writes the rows it gets back.
//!
//! A directory moves `unbacked -> (create) -> fresh -> (drift) -> stale ->
//! (update) -> fresh -> (delete) -> unbacked`; `extract` and `check` leave
//! it where it is.  These decisions do not lock: two operations on one
//! target must be serialised by the caller (see `locks::TargetLocks`), from
//! before the precondition check until the catalog write.
use crate::admission::{admits, has_enough_space};
use crate::borg::{
    arg_views, check_args, check_command, create_args, create_command, delete_args,
    delete_command, extract_args, extract_command, prune_args, prune_command, CreateOutput,
};
use crate::df::DfOutput;
use crate::du::DuOutput;
use crate::model::{Archive, Directory, RootDirectory};
use crate::naming::{archive_prefix, get_archive_prefix};
use vstd::prelude::*;

verus! {

/// Why a lifecycle operation stops before it runs the engine.
#[derive(Clone, Copy, Debug, PartialEq, Eq)]
pub enum LifecycleError {
    /// `create` on a directory that already has an archive.
    ArchiveExists,
    /// The archive to update, delete, extract or check is not cataloged.
    ArchiveMissing,
    /// The directory that the archive links to is no longer cataloged: its
    /// path is gone from disk.
    DirectoryMissing,
    /// Less than 5% of the repository's volume would be left free.
    NotEnoughSpace,
}

/// `create`'s precondition: the directory has no archive yet.
pub fn require_no_archive(existing: &Option<Archive>) -> (r: Result<(), LifecycleError>)
    ensures
        existing is Some <==> r == Err::<(), LifecycleError>(LifecycleError::ArchiveExists),
        existing is None <==> r is Ok,
{
    match existing {
        Some(_) => Err(LifecycleError::ArchiveExists),
        None => Ok(()),
    }
}

/// The space admission, as an operation's step.
pub fn require_space(df: &DfOutput, du: &DuOutput) -> (r: Result<(), LifecycleError>)
    ensures
        admits(df.avail as int, du.size as int, df.size as int) <==> r is Ok,
        !admits(df.avail as int, du.size as int, df.size as int) <==> r == Err::<(), LifecycleError>(
            LifecycleError::NotEnoughSpace,
        ),
{
    if has_enough_space(df, du) {
        Ok(())
    } else {
        Err(LifecycleError::NotEnoughSpace)
    }
}

/// The engine call that `create` makes for one directory.
pub struct CreatePlan {
    /// The archive name derived from the directory's path.
    pub name: String,
    /// The arguments of `borg create`.
    pub args: Vec<String>,
}

/// Decides `create` for one directory, given the archive found for it and
/// the two disk probes.  An existing archive stops it, then too little space;
/// otherwise it snapshots the directory under its derived name.  Every
/// error comes before any engine call.
pub fn plan_create(
    directory: &Directory,
    existing: &Option<Archive>,
    df: &DfOutput,
    du: &DuOutput,
    repo: &str,
    compression: &str,
    dry_run: bool,
) -> (r: Result<CreatePlan, LifecycleError>)
    ensures
        existing is Some ==> r matches Err(LifecycleError::ArchiveExists),
        existing is None && !admits(df.avail as int, du.size as int, df.size as int) ==> r matches Err(
            LifecycleError::NotEnoughSpace,
        ),
        existing is None && admits(df.avail as int, du.size as int, df.size as int) ==> (match r {
            Ok(plan) => plan.name@ == archive_prefix(directory.path@) && arg_views(plan.args@)
                == create_command(repo@, archive_prefix(directory.path@), compression@, dry_run),
            Err(_) => false,
        }),
{
    require_no_archive(existing)?;
    require_space(df, du)?;
    let name = get_archive_prefix(directory.path.as_str());
    let args = create_args(repo, name.as_str(), compression, dry_run);
    Ok(CreatePlan { name, args })
}

/// The engine calls that `update` makes for one directory: a new snapshot
/// under the same prefix, then a prune that keeps only the newest snapshot
/// of the prefix.  Should the prune not run, two snapshots of the directory
/// stay in the repository until the next update or a manual prune.
pub struct UpdatePlan {
    /// Catalog id of the archive row to refresh.
    pub archive: u128,
    pub name: String,
    /// The arguments of `borg create`.
    pub create: Vec<String>,
    /// The arguments of `borg prune`.
    pub prune: Vec<String>,
}

/// Decides `update` for one directory, given the archive found for it and
/// the two disk probes.  A missing archive stops it, then too little space.
pub fn plan_update(
    directory: &Directory,
    existing: &Option<Archive>,
    df: &DfOutput,
    du: &DuOutput,
    repo: &str,
    compression: &str,
    dry_run: bool,
) -> (r: Result<UpdatePlan, LifecycleError>)
    ensures
        existing is None ==> r matches Err(LifecycleError::ArchiveMissing),
        existing is Some && !admits(df.avail as int, du.size as int, df.size as int) ==> r matches Err(
            LifecycleError::NotEnoughSpace,
        ),
        existing is Some && admits(df.avail as int, du.size as int, df.size as int) ==> (match r {
            Ok(plan) => {
                &&& plan.archive == existing->0.id
                &&& plan.name@ == archive_prefix(directory.path@)
                &&& arg_views(plan.create@) == create_command(
                    repo@,
                    archive_prefix(directory.path@),
                    compression@,
                    dry_run,
                )
                &&& arg_views(plan.prune@) == prune_command(
                    repo@,
                    archive_prefix(directory.path@),
                    dry_run,
                )
            },
            Err(_) => false,
        }),
{
    let archive = match existing {
        Some(a) => a,
        None => {
            return Err(LifecycleError::ArchiveMissing);
        },
    };
    require_space(df, du)?;
    let name = get_archive_prefix(directory.path.as_str());
    let create = create_args(repo, name.as_str(), compression, dry_run);
    let prune = prune_args(repo, name.as_str(), dry_run);
    Ok(UpdatePlan { archive: archive.id, name, create, prune })
}

/// The catalog row that records a snapshot just taken by `create`: the
/// engine's archive and repository ids, the time, and the directory's
/// fingerprint at this moment, linked to the directory.
pub fn created_archive(
    id: u128,
    directory: &Directory,
    name: &String,
    output: &CreateOutput,
    created_date: &String,
) -> (r: Archive)
    ensures
        r.id == id,
        r.name@ == name@,
        r.repo_id@ == output.repository.id@,
        r.archive_id@ == output.archive.id@,
        r.created_date@ == created_date@,
        r.fingerprint@ == directory.fingerprint@,
        r.directory_id == Some(directory.id),
{
    Archive {
        id,
        name: name.clone(),
        repo_id: output.repository.id.clone(),
        archive_id: output.archive.id.clone(),
        created_date: created_date.clone(),
        fingerprint: directory.fingerprint.clone(),
        directory_id: Some(directory.id),
    }
}

/// The archive row after `update`: the new engine archive id, the time and
/// the directory's current fingerprint; the rest is kept.
pub fn updated_archive(
    archive: &Archive,
    directory: &Directory,
    output: &CreateOutput,
    created_date: &String,
) -> (r: Archive)
    ensures
        r.id == archive.id,
        r.name@ == archive.name@,
        r.repo_id@ == archive.repo_id@,
        r.archive_id@ == output.archive.id@,
        r.created_date@ == created_date@,
        r.fingerprint@ == directory.fingerprint@,
        r.directory_id == archive.directory_id,
{
    Archive {
        id: archive.id,
        name: archive.name.clone(),
        repo_id: archive.repo_id.clone(),
        archive_id: output.archive.id.clone(),
        created_date: created_date.clone(),
        fingerprint: directory.fingerprint.clone(),
        directory_id: archive.directory_id,
    }
}

/// Decides `delete`: the engine deletes the archive's snapshots by name; the
/// catalog row is removed only once the engine has succeeded.
pub fn plan_delete(archive: &Option<Archive>, repo: &str, dry_run: bool) -> (r: Result<
    Vec<String>,
    LifecycleError,
>)
    ensures
        archive is None ==> r matches Err(LifecycleError::ArchiveMissing),
        archive is Some ==> (match r {
            Ok(args) => arg_views(args@) == delete_command(repo@, archive->0.name@, dry_run),
            Err(_) => false,
        }),
{
    match archive {
        Some(a) => Ok(delete_args(repo, a.name.as_str(), dry_run)),
        None => Err(LifecycleError::ArchiveMissing),
    }
}

/// The directory that an archive links to, as found in the catalog.
pub open spec fn linked(archive: Archive, directory: Option<Directory>) -> bool {
    directory is Some && archive.directory_id == Some(directory->0.id)
}

/// The engine calls of `extract`: a check without repair, then the
/// extraction into the directory's recorded path.
pub struct ExtractPlan {
    pub check: Vec<String>,
    pub extract: Vec<String>,
    /// Where to extract; created when absent.
    pub destination: String,
}

/// Decides `extract`, given the archive and the directory row found under
/// the archive's link.  A dangling link fails; it is never a silent no-op.
pub fn plan_extract(
    archive: &Option<Archive>,
    directory: &Option<Directory>,
    repo: &str,
    dry_run: bool,
) -> (r: Result<ExtractPlan, LifecycleError>)
    ensures
        archive is None ==> r matches Err(LifecycleError::ArchiveMissing),
        archive is Some && !linked(archive->0, *directory) ==> r matches Err(
            LifecycleError::DirectoryMissing,
        ),
        archive is Some && linked(archive->0, *directory) ==> (match r {
            Ok(plan) => {
                &&& arg_views(plan.check@) == check_command(repo@, archive->0.name@, false)
                &&& arg_views(plan.extract@) == extract_command(repo@, archive->0.name@, dry_run)
                &&& plan.destination@ == directory->0.path@
            },
            Err(_) => false,
        }),
{
    let a = match archive {
        Some(a) => a,
        None => {
            return Err(LifecycleError::ArchiveMissing);
        },
    };
    let d = match directory {
        Some(d) => d,
        None => {
            return Err(LifecycleError::DirectoryMissing);
        },
    };
    match a.directory_id {
        Some(id) => {
            if id != d.id {
                return Err(LifecycleError::DirectoryMissing);
            }
        },
        None => {
            return Err(LifecycleError::DirectoryMissing);
        },
    }
    Ok(
        ExtractPlan {
            check: check_args(repo, a.name.as_str(), false),
            extract: extract_args(repo, a.name.as_str(), dry_run),
            destination: d.path.clone(),
        },
    )
}

/// Decides `check`, given the archive and the directory row found under the
/// archive's link.  A dangling link fails, as for `extract`.
pub fn plan_check(
    archive: &Option<Archive>,
    directory: &Option<Directory>,
    repo: &str,
    repair: bool,
) -> (r: Result<Vec<String>, LifecycleError>)
    ensures
        archive is None ==> r matches Err(LifecycleError::ArchiveMissing),
        archive is Some && !linked(archive->0, *directory) ==> r matches Err(
            LifecycleError::DirectoryMissing,
        ),
        archive is Some && linked(archive->0, *directory) ==> (match r {
            Ok(args) => arg_views(args@) == check_command(repo@, archive->0.name@, repair),
            Err(_) => false,
        }),
{
    let a = match archive {
        Some(a) => a,
        None => {
            return Err(LifecycleError::ArchiveMissing);
        },
    };
    let linked_ok = match (a.directory_id, directory) {
        (Some(id), Some(d)) => id == d.id,
        _ => false,
    };
    if !linked_ok {
        return Err(LifecycleError::DirectoryMissing);
    }
    Ok(check_args(repo, a.name.as_str(), repair))
}

} // verus!

verus! {

/// What `watch` does with a canonical path, given the root row found under it.
#[derive(Clone, Copy, Debug, PartialEq, Eq)]
pub enum WatchAction {
    /// A root with this path exists: nothing is written.
    AlreadyWatched,
    /// Insert a root row with the path and depth.
    Insert,
}

/// Decides `watch` for a canonical path.
pub fn watch_action(existing: &Option<RootDirectory>) -> (r: WatchAction)
    ensures
        existing is Some <==> r == WatchAction::AlreadyWatched,
        existing is None <==> r == WatchAction::Insert,
{
    match existing {
        Some(_) => WatchAction::AlreadyWatched,
        None => WatchAction::Insert,
    }
}

/// Decides `unwatch` for a canonical path: the id of the root row to
/// delete, if one was found.
pub fn unwatch_action(existing: &Option<RootDirectory>) -> (r: Option<u128>)
    ensures
        existing is None ==> r is None,
        existing is Some ==> r == Some(existing->0.id),
{
    match existing {
        Some(root) => Some(root.id),
        None => None,
    }
}

/// The root rows, seen as a map from canonical path to depth, after `watch`:
/// as `watch_action` decides, an existing path is left alone.
pub open spec fn watched(roots: Map<Seq<char>, int>, path: Seq<char>, depth: int) -> Map<Seq<char>, int> {
    if roots.dom().contains(path) {
        roots
    } else {
        roots.insert(path, depth)
    }
}

/// The root rows after `unwatch` of a canonical path.
pub open spec fn unwatched(roots: Map<Seq<char>, int>, path: Seq<char>) -> Map<Seq<char>, int> {
    roots.remove(path)
}

/// `watch` then `unwatch` of the same canonical path leaves no root with
/// that path, and watching a path that is already watched changes nothing
/// (no second row, whatever the depth asked).
pub proof fn lemma_watch_unwatch(roots: Map<Seq<char>, int>, path: Seq<char>, depth: int, again: int)
    ensures
        !unwatched(watched(roots, path, depth), path).dom().contains(path),
        watched(watched(roots, path, depth), path, again) == watched(roots, path, depth),
{
}

/// Some archive of the catalog links to the directory `id`.
pub open spec fn has_archive(archives: Seq<Archive>, id: u128) -> bool {
    exists|i: int| 0 <= i < archives.len() && #[trigger] archives[i].directory_id == Some(id)
}

/// The positions of the directories under root `root` whose having an
/// archive is `backed`, in catalog order: the targets of a batch `update`
/// (`backed`) or a batch `create` (not `backed`).
pub open spec fn batch_targets(
    directories: Seq<Directory>,
    archives: Seq<Archive>,
    root: u128,
    backed: bool,
) -> Seq<int>
    decreases directories.len(),
{
    if directories.len() == 0 {
        Seq::empty()
    } else {
        let rest = batch_targets(directories.drop_last(), archives, root, backed);
        let d = directories.last();
        if d.root_directory_id == root && has_archive(archives, d.id) == backed {
            rest.push(directories.len() - 1)
        } else {
            rest
        }
    }
}

fn linked_to(archives: &Vec<Archive>, id: u128) -> (r: bool)
    ensures
        r == has_archive(archives@, id),
{
    let mut i: usize = 0;
    while i < archives.len()
        invariant
            i <= archives@.len(),
            forall|j: int| 0 <= j < i ==> #[trigger] archives@[j].directory_id != Some(id),
        decreases archives@.len() - i,
    {
        if let Some(d) = archives[i].directory_id {
            if d == id {
                assert(archives@[i as int].directory_id == Some(id));
                return true;
            }
        }
        i = i + 1;
    }
    false
}

/// Resolves the directories of a batch under a root: those without an
/// archive for `create` (`backed` false), those with one for `update`.
pub fn select_batch(
    directories: &Vec<Directory>,
    archives: &Vec<Archive>,
    root: u128,
    backed: bool,
) -> (r: Vec<usize>)
    ensures
        r@.map_values(|i: usize| i as int) == batch_targets(directories@, archives@, root, backed),
{
    let mut r: Vec<usize> = Vec::new();
    let mut i: usize = 0;
    while i < directories.len()
        invariant
            i <= directories@.len(),
            r@.map_values(|k: usize| k as int) == batch_targets(
                directories@.subrange(0, i as int),
                archives@,
                root,
                backed,
            ),
        decreases directories@.len() - i,
    {
        let ghost before = r@;
        proof {
            assert(directories@.subrange(0, i + 1).drop_last() == directories@.subrange(0, i as int));
        }
        let d = &directories[i];
        if d.root_directory_id == root && linked_to(archives, d.id) == backed {
            r.push(i);
            assert(r@.map_values(|k: usize| k as int) =~= before.map_values(|k: usize| k as int).push(
                i as int,
            ));
        }
        i = i + 1;
    }
    assert(directories@.subrange(0, i as int) == directories@);
    r
}

} // verus!
