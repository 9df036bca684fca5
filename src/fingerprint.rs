//! Directory fingerprints: a BLAKE3 digest over the paths and modification
//! times of the files below a directory.
use vstd::prelude::*;
use vstd::utf8::encode_utf8;
use vstd::slice::slice_to_vec;

verus! {

/// A file below a tracked directory: its path and its modification time as text.
#[derive(Clone, Debug)]
pub struct FileStamp {
    pub path: String,
    pub modified: String,
}

pub open spec fn stamp_views(files: Seq<FileStamp>) -> Seq<(Seq<char>, Seq<char>)> {
    files.map_values(|f: FileStamp| (f.path@, f.modified@))
}

/// The bytes fed to the digest: for each file in order, the UTF-8 bytes of
/// its path and then those of its modification time.
pub open spec fn stamp_bytes(files: Seq<(Seq<char>, Seq<char>)>) -> Seq<u8>
    decreases files.len(),
{
    if files.len() == 0 {
        Seq::empty()
    } else {
        stamp_bytes(files.drop_last()) + encode_utf8(files.last().0) + encode_utf8(files.last().1)
    }
}

/// Lowercase hexadecimal BLAKE3 digest of a byte string.
pub uninterp spec fn blake3_hex(data: Seq<u8>) -> Seq<char>;

/// The fingerprint of a directory whose files are `files`, in the order walked.
pub open spec fn fingerprint_of(files: Seq<(Seq<char>, Seq<char>)>) -> Seq<char> {
    blake3_hex(stamp_bytes(files))
}

/// Relies on `blake3::hash` and `Hash::to_hex`: the lowercase hexadecimal
/// digest of the bytes, which depends on the bytes alone.
#[verifier::external_body]
fn hex_digest(data: &Vec<u8>) -> (r: String)
    ensures
        r@ == blake3_hex(data@),
{
    blake3::hash(data.as_slice()).to_hex().to_string()
}

/// Computes the fingerprint of a directory from its files, in the order walked.
pub fn compute_directory_hash(files: &Vec<FileStamp>) -> (r: String)
    ensures
        r@ == fingerprint_of(stamp_views(files@)),
{
    let mut data: Vec<u8> = Vec::new();
    let mut i: usize = 0;
    while i < files.len()
        invariant
            i <= files@.len(),
            data@ == stamp_bytes(stamp_views(files@.subrange(0, i as int))),
        decreases files@.len() - i,
    {
        let f = &files[i];
        let mut p = slice_to_vec(f.path.as_str().as_bytes());
        let mut m = slice_to_vec(f.modified.as_str().as_bytes());
        data.append(&mut p);
        data.append(&mut m);
        proof {
            let s = stamp_views(files@.subrange(0, i + 1));
            assert(s.drop_last() =~= stamp_views(files@.subrange(0, i as int)));
            assert(s.last() == (f.path@, f.modified@));
        }
        i = i + 1;
    }
    assert(files@.subrange(0, files@.len() as int) == files@);
    hex_digest(&data)
}

/// A fingerprint is stable: two walks that find the same files, in the same
/// order, with the same modification times, give the same fingerprint.  So
/// a changed fingerprint means the file set or a modification time changed.
pub proof fn lemma_fingerprint_stable(a: Seq<FileStamp>, b: Seq<FileStamp>)
    requires
        stamp_views(a) == stamp_views(b),
    ensures
        fingerprint_of(stamp_views(a)) == fingerprint_of(stamp_views(b)),
{
}

} // verus!
