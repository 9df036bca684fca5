//! Disk usage of a directory tree, as `du -BM -s` reports it.
use crate::text::{mb_field, mb_field_at, skip_blanks, skip_blanks_from};
use vstd::prelude::*;

verus! {

/// Recursive size of a path, in megabytes.
#[derive(Clone, Copy, Debug, PartialEq, Eq)]
pub struct DuOutput {
    pub size: u32,
}

/// The size field of the report line: optional blanks, then `<digits>M`;
/// anything may follow (the path).
pub open spec fn du_field(line: Seq<char>) -> Option<int> {
    match mb_field(line, skip_blanks(line, 0)) {
        Some((size, _)) => Some(size),
        None => None,
    }
}

/// Parses the report line.  `None` when it does not start with a size
/// field, or the size does not fit in a `u32`.
pub fn parse_du_line(line: &str) -> (r: Option<DuOutput>)
    ensures
        match du_field(line@) {
            Some(size) => if size <= u32::MAX {
                r == Some(DuOutput { size: size as u32 })
            } else {
                r is None
            },
            None => r is None,
        },
{
    let n = line.unicode_len();
    let a = skip_blanks_from(line, n, 0);
    match mb_field_at(line, n, a) {
        Some((size, _)) => Some(DuOutput { size }),
        None => None,
    }
}

} // verus!
