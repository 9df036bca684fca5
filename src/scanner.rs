//! The directory scanner's decisions: which walked entries are followed and
//! tracked, how each tracked directory is brought in line with the catalog,
//! which catalog rows are swept, and how drift is reported.
use crate::model::{Archive, Directory};
use vstd::prelude::*;

verus! {

/// The walk enters an entry `depth` levels below its root when that is not
/// deeper than the root's depth, the entry is a directory, and its name is
/// not hidden (does not start with `.`).
pub open spec fn entered(depth: int, root_depth: int, is_dir: bool, name: Seq<char>) -> bool {
    depth <= root_depth && is_dir && !(name.len() > 0 && name[0] == '.')
}

/// Whether the walk enters an entry; see `entered`.
pub fn enters_entry(depth: usize, root_depth: i16, is_dir: bool, name: &str) -> (r: bool)
    ensures
        r == entered(depth as int, root_depth as int, is_dir, name@),
{
    if root_depth < 0 || depth > root_depth as usize || !is_dir {
        return false;
    }
    let n = name.unicode_len();
    !(n > 0 && name.get_char(0) == '.')
}

/// An entered entry is tracked when it lies exactly at the root's depth.
pub fn is_tracked(depth: usize, root_depth: i16) -> (r: bool)
    ensures
        r == (depth as int == root_depth as int),
{
    root_depth >= 0 && depth == root_depth as usize
}

/// What the scan does with the catalog row of a tracked directory.
#[derive(Clone, Copy, Debug, PartialEq, Eq)]
pub enum SyncAction {
    /// No row has the path: insert one with the new fingerprint.
    Create,
    /// The row with this id has another fingerprint: store the new one.
    Update(u128),
    /// The row already holds this fingerprint: write nothing.
    Unchanged,
}

/// Decides the catalog write for a scanned directory, given the row found
/// under its path (if any) and the fingerprint just computed.
pub fn sync_action(existing: &Option<Directory>, fingerprint: &String) -> (r: SyncAction)
    ensures
        existing is None ==> r == SyncAction::Create,
        existing is Some ==> (if existing->0.fingerprint@ == fingerprint@ {
            r == SyncAction::Unchanged
        } else {
            r == SyncAction::Update(existing->0.id)
        }),
        (r == SyncAction::Unchanged) == !sync_writes(found_fingerprint(*existing), fingerprint@),
{
    match existing {
        None => SyncAction::Create,
        Some(d) => {
            if d.fingerprint == *fingerprint {
                SyncAction::Unchanged
            } else {
                SyncAction::Update(d.id)
            }
        },
    }
}

/// The ids of the catalog directories whose path is no longer a directory
/// on disk (`present[i]` tells of `directories[i]`), in catalog order.
pub open spec fn swept_ids(directories: Seq<Directory>, present: Seq<bool>) -> Seq<u128>
    decreases directories.len(),
{
    if directories.len() == 0 || present.len() != directories.len() {
        Seq::empty()
    } else {
        let rest = swept_ids(directories.drop_last(), present.drop_last());
        if present.last() {
            rest
        } else {
            rest.push(directories.last().id)
        }
    }
}

/// `id` belongs to a cataloged directory whose path is gone from disk.
pub open spec fn is_gone(directories: Seq<Directory>, present: Seq<bool>, id: u128) -> bool {
    exists|i: int| 0 <= i < directories.len() && !present[i] && #[trigger] directories[i].id == id
}

/// The sweep after a scan: every cataloged directory whose path has gone
/// from disk is deleted, whether or not an archive links to it.
pub fn stale_directory_ids(directories: &Vec<Directory>, present: &Vec<bool>) -> (r: Vec<u128>)
    requires
        directories@.len() == present@.len(),
    ensures
        r@ == swept_ids(directories@, present@),
        forall|i: int|
            0 <= i < directories@.len() && !present@[i] ==> r@.contains(
                #[trigger] directories@[i].id,
            ),
        forall|k: int| 0 <= k < r@.len() ==> is_gone(directories@, present@, #[trigger] r@[k]),
{
    let mut r: Vec<u128> = Vec::new();
    let mut i: usize = 0;
    while i < directories.len()
        invariant
            directories@.len() == present@.len(),
            i <= directories@.len(),
            r@ == swept_ids(directories@.subrange(0, i as int), present@.subrange(0, i as int)),
            forall|j: int| 0 <= j < i && !present@[j] ==> r@.contains(#[trigger] directories@[j].id),
            forall|k: int|
                #![trigger r@[k]]
                0 <= k < r@.len() ==> exists|j: int|
                    0 <= j < i && !present@[j] && #[trigger] directories@[j].id == r@[k],
        decreases directories@.len() - i,
    {
        proof {
            assert(directories@.subrange(0, i + 1).drop_last() == directories@.subrange(0, i as int));
            assert(present@.subrange(0, i + 1).drop_last() == present@.subrange(0, i as int));
        }
        let ghost before = r@;
        if !present[i] {
            r.push(directories[i].id);
            proof {
                assert(r@[r@.len() - 1] == directories@[i as int].id);
                assert forall|j: int| 0 <= j <= i && !present@[j] implies r@.contains(
                    #[trigger] directories@[j].id,
                ) by {
                    if j < i {
                        let k = choose|k: int| 0 <= k < before.len() && before[k] == directories@[j].id;
                        assert(r@[k] == before[k]);
                    } else {
                        assert(r@[r@.len() - 1] == directories@[j].id);
                    }
                }
                assert forall|k: int| #![trigger r@[k]] 0 <= k < r@.len() implies exists|j: int|
                    0 <= j < i + 1 && !present@[j] && #[trigger] directories@[j].id == r@[k] by {
                    if k < before.len() {
                        assert(r@[k] == before[k]);
                    } else {
                        assert(directories@[i as int].id == r@[k]);
                    }
                }
            }
        }
        i = i + 1;
    }
    proof {
        assert(directories@.subrange(0, i as int) == directories@);
        assert(present@.subrange(0, i as int) == present@);
        assert forall|k: int| 0 <= k < r@.len() implies is_gone(directories@, present@, #[trigger] r@[k]) by {
            let j = choose|j: int| 0 <= j < i && !present@[j] && #[trigger] directories@[j].id == r@[k];
            assert(0 <= j < directories@.len() && !present@[j] && directories@[j].id == r@[k]);
        }
    }
    r
}

/// Where a directory stands with respect to its snapshot.
#[derive(Clone, Copy, Debug, PartialEq, Eq)]
pub enum BackupState {
    /// No archive links to the directory.
    Unbacked,
    /// The archive was taken at the directory's current fingerprint.
    Fresh,
    /// The directory's fingerprint has drifted since the archive was taken.
    Stale,
}

/// Drift report for one cataloged directory and the archive linked to it.
pub fn backup_state(directory: &Directory, archive: &Option<Archive>) -> (r: BackupState)
    ensures
        archive is None ==> r == BackupState::Unbacked,
        archive is Some ==> (if archive->0.fingerprint@ == directory.fingerprint@ {
            r == BackupState::Fresh
        } else {
            r == BackupState::Stale
        }),
{
    match archive {
        None => BackupState::Unbacked,
        Some(a) => {
            if a.fingerprint == directory.fingerprint {
                BackupState::Fresh
            } else {
                BackupState::Stale
            }
        },
    }
}

} // verus!

verus! {

/// The fingerprint held by the row that a lookup by path found.
pub open spec fn found_fingerprint(existing: Option<Directory>) -> Option<Seq<char>> {
    match existing {
        Some(d) => Some(d.fingerprint@),
        None => None,
    }
}

/// A scanned directory costs a catalog write unless the row found under
/// its path already holds its fingerprint.  `sync_action` answers
/// `Unchanged` exactly when this is false.
pub open spec fn sync_writes(found: Option<Seq<char>>, fingerprint: Seq<char>) -> bool {
    found != Some(fingerprint)
}

/// The catalog's directory rows, seen as a map from path to fingerprint.
pub open spec fn lookup(catalog: Map<Seq<char>, Seq<char>>, path: Seq<char>) -> Option<Seq<char>> {
    if catalog.dom().contains(path) {
        Some(catalog[path])
    } else {
        None
    }
}

/// The catalog after the scanned `(path, fingerprint)` pairs are synchronised
/// in order: each path ends up holding its fingerprint.
pub open spec fn synced(catalog: Map<Seq<char>, Seq<char>>, scanned: Seq<(Seq<char>, Seq<char>)>) -> Map<
    Seq<char>,
    Seq<char>,
>
    decreases scanned.len(),
{
    if scanned.len() == 0 {
        catalog
    } else {
        synced(catalog, scanned.drop_last()).insert(scanned.last().0, scanned.last().1)
    }
}

/// The sweep keeps only the rows whose path is still a directory on disk.
pub open spec fn swept(catalog: Map<Seq<char>, Seq<char>>, on_disk: Set<Seq<char>>) -> Map<
    Seq<char>,
    Seq<char>,
> {
    catalog.restrict(on_disk)
}

/// The catalog after a whole scan: synchronisation, then the sweep.
pub open spec fn after_scan(
    catalog: Map<Seq<char>, Seq<char>>,
    scanned: Seq<(Seq<char>, Seq<char>)>,
    on_disk: Set<Seq<char>>,
) -> Map<Seq<char>, Seq<char>> {
    swept(synced(catalog, scanned), on_disk)
}

/// Whether a scan writes to the catalog: some scanned directory needs a
/// write when it is looked up (in the catalog as the scan has left it so
/// far), or the sweep finds a row whose path is gone.
pub open spec fn scan_writes(
    catalog: Map<Seq<char>, Seq<char>>,
    scanned: Seq<(Seq<char>, Seq<char>)>,
    on_disk: Set<Seq<char>>,
) -> bool {
    ||| exists|i: int|
        0 <= i < scanned.len() && #[trigger] sync_writes(
            lookup(synced(catalog, scanned.take(i)), scanned[i].0),
            scanned[i].1,
        )
    ||| exists|p: Seq<char>| #[trigger] synced(catalog, scanned).dom().contains(p) && !on_disk.contains(p)
}

/// One filesystem state gives one fingerprint per path.
pub open spec fn consistent(scanned: Seq<(Seq<char>, Seq<char>)>) -> bool {
    forall|i: int, j: int|
        0 <= i < scanned.len() && 0 <= j < scanned.len() && #[trigger] scanned[i].0
            == #[trigger] scanned[j].0 ==> scanned[i].1 == scanned[j].1
}

proof fn lemma_synced_holds(catalog: Map<Seq<char>, Seq<char>>, scanned: Seq<(Seq<char>, Seq<char>)>)
    requires
        consistent(scanned),
    ensures
        forall|i: int|
            0 <= i < scanned.len() ==> #[trigger] lookup(synced(catalog, scanned), scanned[i].0)
                == Some(scanned[i].1),
    decreases scanned.len(),
{
    if scanned.len() > 0 {
        let s = scanned.drop_last();
        assert(consistent(s)) by {
            assert forall|i: int, j: int|
                0 <= i < s.len() && 0 <= j < s.len() && #[trigger] s[i].0 == #[trigger] s[j].0 implies s[i].1
                == s[j].1 by {
                assert(s[i] == scanned[i] && s[j] == scanned[j]);
            }
        }
        lemma_synced_holds(catalog, s);
        let last = scanned.len() - 1;
        assert forall|i: int| 0 <= i < scanned.len() implies #[trigger] lookup(
            synced(catalog, scanned),
            scanned[i].0,
        ) == Some(scanned[i].1) by {
            if i < last {
                assert(s[i] == scanned[i]);
                assert(lookup(synced(catalog, s), s[i].0) == Some(s[i].1));
                if scanned[i].0 == scanned[last].0 {
                    assert(scanned[i].1 == scanned[last].1);
                }
            }
        }
    }
}

proof fn lemma_synced_keeps(
    catalog: Map<Seq<char>, Seq<char>>,
    scanned: Seq<(Seq<char>, Seq<char>)>,
    path: Seq<char>,
    fingerprint: Seq<char>,
)
    requires
        lookup(catalog, path) == Some(fingerprint),
        forall|i: int| 0 <= i < scanned.len() && #[trigger] scanned[i].0 == path ==> scanned[i].1 == fingerprint,
    ensures
        lookup(synced(catalog, scanned), path) == Some(fingerprint),
    decreases scanned.len(),
{
    if scanned.len() > 0 {
        let s = scanned.drop_last();
        assert forall|i: int| 0 <= i < s.len() && #[trigger] s[i].0 == path implies s[i].1 == fingerprint by {
            assert(s[i] == scanned[i]);
        }
        lemma_synced_keeps(catalog, s, path, fingerprint);
        let last = scanned.len() - 1;
        if scanned[last].0 == path {
            assert(scanned[last].1 == fingerprint);
        }
    }
}

proof fn lemma_synced_dom(catalog: Map<Seq<char>, Seq<char>>, scanned: Seq<(Seq<char>, Seq<char>)>, p: Seq<char>)
    requires
        synced(catalog, scanned).dom().contains(p),
    ensures
        catalog.dom().contains(p) || exists|i: int| 0 <= i < scanned.len() && #[trigger] scanned[i].0 == p,
    decreases scanned.len(),
{
    if scanned.len() > 0 {
        let s = scanned.drop_last();
        let last = scanned.len() - 1;
        if scanned[last].0 != p {
            lemma_synced_dom(catalog, s, p);
            if !catalog.dom().contains(p) {
                let i = choose|i: int| 0 <= i < s.len() && #[trigger] s[i].0 == p;
                assert(scanned[i] == s[i]);
            }
        }
    }
}

/// Scanning twice with no change on disk: the second scan writes nothing to
/// the catalog.  `scanned` is what the walk finds (every path is on disk, and
/// one path has one fingerprint); `on_disk` is the set of paths that are
/// directories.
pub proof fn lemma_rescan_writes_nothing(
    catalog: Map<Seq<char>, Seq<char>>,
    scanned: Seq<(Seq<char>, Seq<char>)>,
    on_disk: Set<Seq<char>>,
)
    requires
        consistent(scanned),
        forall|i: int| 0 <= i < scanned.len() ==> on_disk.contains(#[trigger] scanned[i].0),
    ensures
        !scan_writes(after_scan(catalog, scanned, on_disk), scanned, on_disk),
{
    let first = after_scan(catalog, scanned, on_disk);
    lemma_synced_holds(catalog, scanned);
    assert forall|i: int| 0 <= i < scanned.len() implies !#[trigger] sync_writes(
        lookup(synced(first, scanned.take(i)), scanned[i].0),
        scanned[i].1,
    ) by {
        assert(lookup(synced(catalog, scanned), scanned[i].0) == Some(scanned[i].1));
        assert(on_disk.contains(scanned[i].0));
        assert(lookup(first, scanned[i].0) == Some(scanned[i].1));
        let t = scanned.take(i);
        assert forall|j: int| 0 <= j < t.len() && #[trigger] t[j].0 == scanned[i].0 implies t[j].1
            == scanned[i].1 by {
            assert(t[j] == scanned[j]);
        }
        lemma_synced_keeps(first, t, scanned[i].0, scanned[i].1);
    }
    assert forall|p: Seq<char>| #[trigger] synced(first, scanned).dom().contains(p) implies on_disk.contains(p) by {
        lemma_synced_dom(first, scanned, p);
    }
}

/// A cataloged directory whose path is gone from disk is not in the catalog
/// after the next scan (the walk cannot find a path that is gone).
pub proof fn lemma_gone_directory_swept(
    catalog: Map<Seq<char>, Seq<char>>,
    scanned: Seq<(Seq<char>, Seq<char>)>,
    on_disk: Set<Seq<char>>,
    path: Seq<char>,
)
    requires
        !on_disk.contains(path),
    ensures
        !after_scan(catalog, scanned, on_disk).dom().contains(path),
{
}

} // verus!
