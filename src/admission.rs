//! The free-space check that gates every backup.
use crate::df::DfOutput;
use crate::du::DuOutput;
use vstd::prelude::*;

verus! {

/// A backup of `size` megabytes is admitted on a volume of `total` megabytes
/// with `avail` available when the fraction left afterwards,
/// `(avail - size) / total`, is not below 5%, i.e. `20 * (avail - size) >= total`.
pub open spec fn admits(avail: int, size: int, total: int) -> bool {
    20 * (avail - size) >= total
}

/// The space-admission check: whether the volume keeps at least 5% of its
/// total space free after a backup of the directory.
pub fn has_enough_space(df: &DfOutput, du: &DuOutput) -> (r: bool)
    ensures
        r == admits(df.avail as int, du.size as int, df.size as int),
{
    let left: i64 = df.avail as i64 - du.size as i64;
    20 * left >= df.size as i64
}

} // verus!
