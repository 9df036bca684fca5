use permafrust::borg::{Archive as EngineArchive, CreateOutput, Repository};
use permafrust::df::DfOutput;
use permafrust::du::DuOutput;
use permafrust::locks::TargetLocks;
use permafrust::model::{Archive, Directory, RootDirectory};
use permafrust::permafrust::{
    created_archive, plan_check, plan_create, plan_delete, plan_extract, plan_update,
    require_no_archive, require_space, select_batch, unwatch_action, updated_archive,
    watch_action, LifecycleError, WatchAction,
};
use permafrust::scanner::{
    backup_state, enters_entry, is_tracked, stale_directory_ids, sync_action, BackupState,
    SyncAction,
};

fn dir(id: u128, path: &str, fp: &str, root: u128) -> Directory {
    Directory {
        id,
        path: path.to_string(),
        fingerprint: fp.to_string(),
        root_directory_id: root,
    }
}

fn archive(id: u128, name: &str, fp: &str, directory: Option<u128>) -> Archive {
    Archive {
        id,
        name: name.to_string(),
        repo_id: "repo-1".to_string(),
        archive_id: "engine-1".to_string(),
        created_date: "2021-01-01T00:00:00.000000".to_string(),
        fingerprint: fp.to_string(),
        directory_id: directory,
    }
}

fn output(archive_id: &str) -> CreateOutput {
    CreateOutput {
        archive: EngineArchive {
            id: archive_id.to_string(),
            name: "srv-a-20210101-000000".to_string(),
            start: "2021-01-01T00:00:00.000000".to_string(),
        },
        repository: Repository {
            id: "repo-1".to_string(),
            last_modified: "2021-01-01T00:00:00.000000".to_string(),
            location: "/backup".to_string(),
        },
    }
}

const ROOMY: DfOutput = DfOutput { size: 1000, avail: 900 };
const SMALL: DuOutput = DuOutput { size: 10 };

#[test]
fn create_refused_when_archive_exists() {
    let d = dir(1, "/srv/a", "f1", 9);
    let existing = Some(archive(5, "srv-a", "f1", Some(1)));
    assert_eq!(require_no_archive(&existing), Err(LifecycleError::ArchiveExists));
    let r = plan_create(&d, &existing, &ROOMY, &SMALL, "/backup", "lz4", false);
    assert!(matches!(r, Err(LifecycleError::ArchiveExists)));
    assert_eq!(require_no_archive(&None), Ok(()));
}

#[test]
fn create_space_admission_boundaries() {
    let d = dir(1, "/srv/a", "f1", 9);
    let df = DfOutput { size: 100, avail: 100 };
    let r = plan_create(&d, &None, &df, &DuOutput { size: 96 }, "/backup", "lz4", false);
    assert!(matches!(r, Err(LifecycleError::NotEnoughSpace)));
    assert_eq!(require_space(&df, &DuOutput { size: 96 }), Err(LifecycleError::NotEnoughSpace));
    let plan = plan_create(&d, &None, &df, &DuOutput { size: 94 }, "/backup", "lz4", false)
        .ok()
        .unwrap();
    assert_eq!(plan.name, "srv-a");
    assert_eq!(plan.args[0], "create");
    assert_eq!(plan.args[plan.args.len() - 2], "/backup::srv-a-{utcnow:%Y%m%d-%H%M%S}");
}

#[test]
fn update_needs_archive_then_space() {
    let d = dir(1, "/srv/a", "f2", 9);
    let r = plan_update(&d, &None, &ROOMY, &SMALL, "/backup", "lz4", false);
    assert!(matches!(r, Err(LifecycleError::ArchiveMissing)));
    let existing = Some(archive(5, "srv-a", "f1", Some(1)));
    let tight = DfOutput { size: 100, avail: 50 };
    let r = plan_update(&d, &existing, &tight, &DuOutput { size: 48 }, "/backup", "lz4", false);
    assert!(matches!(r, Err(LifecycleError::NotEnoughSpace)));
    let plan = plan_update(&d, &existing, &ROOMY, &SMALL, "/backup", "zstd", true)
        .ok()
        .unwrap();
    assert_eq!(plan.archive, 5);
    assert_eq!(plan.name, "srv-a");
    assert_eq!(plan.create[1], "--dry-run");
    assert_eq!(plan.create[5], "zstd");
    assert_eq!(
        plan.prune,
        vec!["prune", "--dry-run", "--keep-last", "1", "--prefix", "srv-a", "/backup"]
    );
}

#[test]
fn archive_rows_record_the_snapshot() {
    let d = dir(1, "/srv/a", "f1", 9);
    let row = created_archive(7, &d, &"srv-a".to_string(), &output("e-42"), &"T1".to_string());
    assert_eq!(row.id, 7);
    assert_eq!(row.name, "srv-a");
    assert_eq!(row.repo_id, "repo-1");
    assert_eq!(row.archive_id, "e-42");
    assert_eq!(row.created_date, "T1");
    assert_eq!(row.fingerprint, "f1");
    assert_eq!(row.directory_id, Some(1));

    let moved = dir(1, "/srv/a", "f2", 9);
    let next = updated_archive(&row, &moved, &output("e-43"), &"T2".to_string());
    assert_eq!(next.id, 7);
    assert_eq!(next.name, "srv-a");
    assert_eq!(next.archive_id, "e-43");
    assert_eq!(next.created_date, "T2");
    assert_eq!(next.fingerprint, "f2");
    assert_eq!(next.directory_id, Some(1));
}

#[test]
fn delete_extract_check_plans() {
    let a = archive(5, "srv-a", "f1", Some(1));
    let d = dir(1, "/srv/a", "f1", 9);
    assert!(matches!(plan_delete(&None, "/backup", false), Err(LifecycleError::ArchiveMissing)));
    assert_eq!(
        plan_delete(&Some(a.clone()), "/backup", true).ok().unwrap(),
        vec!["delete", "--dry-run", "--progress", "--prefix", "srv-a", "/backup"]
    );
    let plan = plan_extract(&Some(a.clone()), &Some(d.clone()), "/backup", false).ok().unwrap();
    assert_eq!(plan.check, vec!["check", "/backup::srv-a"]);
    assert_eq!(plan.extract, vec!["extract", "/backup::srv-a"]);
    assert_eq!(plan.destination, "/srv/a");
    assert_eq!(
        plan_check(&Some(a.clone()), &Some(d.clone()), "/backup", true),
        Ok(vec!["check".to_string(), "--repair".to_string(), "/backup::srv-a".to_string()])
    );
    assert!(matches!(
        plan_extract(&None, &Some(d.clone()), "/backup", false),
        Err(LifecycleError::ArchiveMissing)
    ));
    assert_eq!(plan_check(&None, &None, "/backup", false), Err(LifecycleError::ArchiveMissing));
    let other = dir(2, "/srv/b", "f1", 9);
    assert!(matches!(
        plan_extract(&Some(a.clone()), &Some(other), "/backup", false),
        Err(LifecycleError::DirectoryMissing)
    ));
    let unlinked = archive(6, "srv-c", "f1", None);
    assert_eq!(
        plan_check(&Some(unlinked), &Some(d), "/backup", false),
        Err(LifecycleError::DirectoryMissing)
    );
}

#[test]
fn watch_and_unwatch_decisions() {
    let root = RootDirectory { id: 3, path: "/srv".to_string(), depth: 1 };
    assert_eq!(watch_action(&None), WatchAction::Insert);
    assert_eq!(watch_action(&Some(root.clone())), WatchAction::AlreadyWatched);
    assert_eq!(unwatch_action(&Some(root)), Some(3));
    assert_eq!(unwatch_action(&None), None);
}

#[test]
fn watch_then_unwatch_leaves_no_root() {
    // an in-memory table of root rows, driven by the decisions
    let mut rows: Vec<RootDirectory> = Vec::new();
    for _ in 0..2 {
        let found = rows.iter().find(|r| r.path == "/srv").cloned();
        if watch_action(&found) == WatchAction::Insert {
            rows.push(RootDirectory { id: 3, path: "/srv".to_string(), depth: 1 });
        }
    }
    assert_eq!(rows.len(), 1);
    let found = rows.iter().find(|r| r.path == "/srv").cloned();
    if let Some(id) = unwatch_action(&found) {
        rows.retain(|r| r.id != id);
    }
    assert!(rows.iter().all(|r| r.path != "/srv"));
}

#[test]
fn walk_filters() {
    assert!(enters_entry(0, 1, true, "srv"));
    assert!(enters_entry(1, 1, true, "a"));
    assert!(!enters_entry(2, 1, true, "deep"));
    assert!(!enters_entry(1, 1, false, "file.txt"));
    assert!(!enters_entry(1, 1, true, ".git"));
    assert!(!enters_entry(0, -1, true, "srv"));
    assert!(enters_entry(0, 0, true, ""));
    assert!(is_tracked(1, 1));
    assert!(!is_tracked(0, 1));
    assert!(!is_tracked(0, -1));
}

#[test]
fn sync_decisions() {
    let d = dir(4, "/srv/a", "f1", 9);
    assert_eq!(sync_action(&None, &"f1".to_string()), SyncAction::Create);
    assert_eq!(sync_action(&Some(d.clone()), &"f1".to_string()), SyncAction::Unchanged);
    assert_eq!(sync_action(&Some(d), &"f2".to_string()), SyncAction::Update(4));
}

#[test]
fn second_scan_writes_nothing() {
    let scanned = vec![("/srv/a", "f1"), ("/srv/b", "f2")];
    let mut catalog: Vec<Directory> = vec![dir(1, "/srv/a", "old", 9), dir(2, "/gone", "g", 9)];
    let mut next_id: u128 = 10;
    let mut writes = 0;
    for round in 0..2 {
        writes = 0;
        for (path, fp) in &scanned {
            let found = catalog.iter().find(|d| d.path == *path).cloned();
            match sync_action(&found, &fp.to_string()) {
                SyncAction::Create => {
                    catalog.push(dir(next_id, path, fp, 9));
                    next_id += 1;
                    writes += 1;
                }
                SyncAction::Update(id) => {
                    for d in catalog.iter_mut().filter(|d| d.id == id) {
                        d.fingerprint = fp.to_string();
                    }
                    writes += 1;
                }
                SyncAction::Unchanged => {}
            }
        }
        let present: Vec<bool> = catalog.iter().map(|d| d.path.starts_with("/srv/")).collect();
        let gone = stale_directory_ids(&catalog, &present);
        writes += gone.len();
        catalog.retain(|d| !gone.contains(&d.id));
        if round == 0 {
            assert_eq!(writes, 3);
        }
    }
    assert_eq!(writes, 0);
    assert_eq!(catalog.len(), 2);
}

#[test]
fn sweep_ignores_archives() {
    let dirs = vec![dir(1, "/srv/a", "f", 9), dir(2, "/srv/b", "f", 9), dir(3, "/srv/c", "f", 9)];
    assert_eq!(stale_directory_ids(&dirs, &vec![true, false, false]), vec![2, 3]);
    assert_eq!(stale_directory_ids(&dirs, &vec![true, true, true]), Vec::<u128>::new());
    assert_eq!(stale_directory_ids(&vec![], &vec![]), Vec::<u128>::new());
}

#[test]
fn drift_report() {
    let d = dir(1, "/srv/a", "f2", 9);
    assert_eq!(backup_state(&d, &None), BackupState::Unbacked);
    assert_eq!(backup_state(&d, &Some(archive(5, "srv-a", "f2", Some(1)))), BackupState::Fresh);
    assert_eq!(backup_state(&d, &Some(archive(5, "srv-a", "f1", Some(1)))), BackupState::Stale);
}

#[test]
fn batch_selection() {
    let dirs = vec![
        dir(1, "/srv/a", "f", 9),
        dir(2, "/srv/b", "f", 9),
        dir(3, "/other/c", "f", 8),
        dir(4, "/srv/d", "f", 9),
    ];
    let archives = vec![archive(5, "srv-b", "f", Some(2)), archive(6, "x", "f", None)];
    assert_eq!(select_batch(&dirs, &archives, 9, false), vec![0, 3]);
    assert_eq!(select_batch(&dirs, &archives, 9, true), vec![1]);
    assert_eq!(select_batch(&dirs, &archives, 8, false), vec![2]);
    assert_eq!(select_batch(&dirs, &archives, 7, false), Vec::<usize>::new());
}

#[test]
fn watched_root_scan_create_then_disk_removal() {
    // root /srv watched at depth 1 holding /srv/a and /srv/b
    let root = RootDirectory { id: 9, path: "/srv".to_string(), depth: 1 };
    let walked = [(0usize, "srv"), (1, "a"), (1, "b"), (1, ".cache")];
    let mut catalog: Vec<Directory> = Vec::new();
    for (depth, name) in walked {
        if enters_entry(depth, root.depth, true, name) && is_tracked(depth, root.depth) {
            let path = format!("/srv/{}", name);
            let found = catalog.iter().find(|d| d.path == path).cloned();
            assert_eq!(sync_action(&found, &"f".to_string()), SyncAction::Create);
            catalog.push(dir(catalog.len() as u128 + 1, &path, "f", root.id));
        }
    }
    assert_eq!(catalog.len(), 2);

    // batch create against the root
    let mut archives: Vec<Archive> = Vec::new();
    for i in select_batch(&catalog, &archives, root.id, false) {
        let d = &catalog[i];
        let existing = archives.iter().find(|a| a.directory_id == Some(d.id)).cloned();
        let plan = plan_create(d, &existing, &ROOMY, &SMALL, "/backup", "lz4", false)
            .ok()
            .unwrap();
        let id = 100 + i as u128;
        archives.push(created_archive(id, d, &plan.name, &output("e"), &"T".to_string()));
    }
    assert_eq!(archives.len(), 2);
    assert_eq!(archives[1].name, "srv-b");

    // /srv/b is removed from disk and the catalog is rescanned
    let present: Vec<bool> = catalog.iter().map(|d| d.path == "/srv/a").collect();
    let gone = stale_directory_ids(&catalog, &present);
    assert_eq!(gone, vec![2]);
    catalog.retain(|d| !gone.contains(&d.id));
    assert_eq!(archives.len(), 2);

    // the archive of /srv/b now points at a directory that is gone
    let b = archives[1].clone();
    let linked = catalog.iter().find(|d| Some(d.id) == b.directory_id).cloned();
    assert!(linked.is_none());
    assert!(matches!(
        plan_extract(&Some(b.clone()), &linked, "/backup", false),
        Err(LifecycleError::DirectoryMissing)
    ));
    assert_eq!(
        plan_check(&Some(b), &linked, "/backup", false),
        Err(LifecycleError::DirectoryMissing)
    );
}

#[test]
fn target_locks_exclude_a_second_operation() {
    let mut locks = TargetLocks::new();
    assert!(!locks.is_held(1));
    assert!(locks.try_acquire(1));
    assert!(!locks.try_acquire(1));
    assert!(locks.try_acquire(2));
    assert!(locks.is_held(1) && locks.is_held(2));
    locks.release(1);
    assert!(!locks.is_held(1));
    assert!(locks.is_held(2));
    locks.release(1);
    assert!(locks.try_acquire(1));
}

#[test]
fn state_cycle_unbacked_fresh_stale_fresh() {
    let d = dir(1, "/srv/a", "f1", 9);
    assert_eq!(backup_state(&d, &None), BackupState::Unbacked);
    let plan = plan_create(&d, &None, &ROOMY, &SMALL, "/backup", "lz4", false).ok().unwrap();
    let row = created_archive(5, &d, &plan.name, &output("e-1"), &"T1".to_string());
    assert_eq!(backup_state(&d, &Some(row.clone())), BackupState::Fresh);
    let drifted = dir(1, "/srv/a", "f2", 9);
    assert_eq!(backup_state(&drifted, &Some(row.clone())), BackupState::Stale);
    let existing = Some(row.clone());
    let plan = plan_update(&drifted, &existing, &ROOMY, &SMALL, "/backup", "lz4", false)
        .ok()
        .unwrap();
    assert_eq!(plan.archive, row.id);
    let refreshed = updated_archive(&row, &drifted, &output("e-2"), &"T2".to_string());
    assert_eq!(backup_state(&drifted, &Some(refreshed.clone())), BackupState::Fresh);
    assert!(plan_delete(&Some(refreshed), "/backup", false).is_ok());
    assert_eq!(backup_state(&drifted, &None), BackupState::Unbacked);
}
