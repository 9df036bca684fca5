//! Free space of the volume that holds a path, as `df -BM --output=size,avail`
//! reports it.
use crate::text::{mb_field, mb_field_at, skip_blanks, skip_blanks_from};
use vstd::prelude::*;

verus! {

/// Total and available space of a volume, in megabytes.
#[derive(Clone, Copy, Debug, PartialEq, Eq)]
pub struct DfOutput {
    pub size: u32,
    pub avail: u32,
}

/// The two fields of a data line of the report: optional blanks, the total
/// size as `<digits>M`, one or more blanks, the available space as
/// `<digits>M`; anything may follow.
pub open spec fn df_fields(line: Seq<char>) -> Option<(int, int)> {
    match mb_field(line, skip_blanks(line, 0)) {
        Some((size, next)) => {
            let start = skip_blanks(line, next);
            if start > next {
                match mb_field(line, start) {
                    Some((avail, _)) => Some((size, avail)),
                    None => None,
                }
            } else {
                None
            }
        },
        None => None,
    }
}

/// Parses the data line of the report.  `None` when the line does not have
/// the shape of `df_fields`, or a number does not fit in a `u32`.
pub fn parse_df_line(line: &str) -> (r: Option<DfOutput>)
    ensures
        match df_fields(line@) {
            Some((size, avail)) => if size <= u32::MAX && avail <= u32::MAX {
                r == Some(DfOutput { size: size as u32, avail: avail as u32 })
            } else {
                r is None
            },
            None => r is None,
        },
{
    let n = line.unicode_len();
    let a = skip_blanks_from(line, n, 0);
    match mb_field_at(line, n, a) {
        Some((size, next)) => {
            let start = skip_blanks_from(line, n, next);
            if start > next {
                match mb_field_at(line, n, start) {
                    Some((avail, _)) => Some(DfOutput { size, avail }),
                    None => None,
                }
            } else {
                None
            }
        },
        None => None,
    }
}

} // verus!
