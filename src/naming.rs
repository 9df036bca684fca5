//! Archive names derived from directory paths.
use vstd::prelude::*;

verus! {

/// Characters on which a path is split into components.
pub open spec fn is_separator(c: char) -> bool {
    c == '/' || c == '_'
}

/// Characters that survive inside a component: ASCII letters and digits.
/// (An underscore would survive too, but it always acts as a separator.)
pub open spec fn is_kept(c: char) -> bool {
    ('a' <= c && c <= 'z') || ('A' <= c && c <= 'Z') || ('0' <= c && c <= '9')
}

pub open spec fn is_upper(c: char) -> bool {
    'A' <= c && c <= 'Z'
}

pub open spec fn ascii_lower(c: char) -> char {
    if is_upper(c) {
        ((c as u32) + 32) as char
    } else {
        c
    }
}

/// Characters that an archive name may hold: `[a-z0-9-]`.
pub open spec fn is_name_char(c: char) -> bool {
    ('a' <= c && c <= 'z') || ('0' <= c && c <= '9') || c == '-'
}

/// The path split on separators, each component stripped of the characters
/// that are not kept, and the components joined with `-`.  Splitting on a
/// separator and joining with `-` puts one `-` where each separator was.
pub open spec fn joined_components(s: Seq<char>) -> Seq<char>
    decreases s.len(),
{
    if s.len() == 0 {
        Seq::empty()
    } else {
        let p = joined_components(s.drop_last());
        let c = s.last();
        if is_separator(c) {
            p.push('-')
        } else if is_kept(c) {
            p.push(c)
        } else {
            p
        }
    }
}

/// Every run of `-` collapsed into a single `-`.
pub open spec fn collapse_dashes(s: Seq<char>) -> Seq<char>
    decreases s.len(),
{
    if s.len() == 0 {
        Seq::empty()
    } else {
        let p = collapse_dashes(s.drop_last());
        if s.last() == '-' && p.len() > 0 && p.last() == '-' {
            p
        } else {
            p.push(s.last())
        }
    }
}

pub open spec fn strip_leading_dash(s: Seq<char>) -> Seq<char> {
    if s.len() > 0 && s[0] == '-' {
        s.drop_first()
    } else {
        s
    }
}

pub open spec fn lowercase(s: Seq<char>) -> Seq<char> {
    s.map_values(|c: char| ascii_lower(c))
}

/// The archive name (and pruning prefix) of a directory path.
pub open spec fn archive_prefix(path: Seq<char>) -> Seq<char> {
    lowercase(strip_leading_dash(collapse_dashes(joined_components(path))))
}

/// No two neighbouring characters are both `-`.
pub open spec fn no_double_dash(s: Seq<char>) -> bool {
    forall|i: int| 0 <= i < s.len() - 1 ==> !(#[trigger] s[i] == '-' && s[i + 1] == '-')
}

pub open spec fn is_well_formed_name(s: Seq<char>) -> bool {
    &&& forall|i: int| 0 <= i < s.len() ==> is_name_char(#[trigger] s[i])
    &&& (s.len() > 0 ==> s[0] != '-')
    &&& no_double_dash(s)
}

proof fn lemma_joined_chars(s: Seq<char>)
    ensures
        forall|i: int|
            0 <= i < joined_components(s).len() ==> (is_kept(#[trigger] joined_components(s)[i])
                || joined_components(s)[i] == '-'),
    decreases s.len(),
{
    if s.len() > 0 {
        let p = joined_components(s.drop_last());
        lemma_joined_chars(s.drop_last());
        let r = joined_components(s);
        assert forall|i: int| 0 <= i < r.len() implies (is_kept(#[trigger] r[i]) || r[i] == '-') by {
            if i < p.len() {
                assert(r[i] == p[i]);
            }
        }
    }
}

proof fn lemma_collapse(s: Seq<char>)
    requires
        forall|i: int| 0 <= i < s.len() ==> (is_kept(#[trigger] s[i]) || s[i] == '-'),
    ensures
        forall|i: int|
            0 <= i < collapse_dashes(s).len() ==> (is_kept(#[trigger] collapse_dashes(s)[i])
                || collapse_dashes(s)[i] == '-'),
        no_double_dash(collapse_dashes(s)),
    decreases s.len(),
{
    if s.len() > 0 {
        let t = s.drop_last();
        assert forall|i: int| 0 <= i < t.len() implies (is_kept(#[trigger] t[i]) || t[i] == '-') by {
            assert(t[i] == s[i]);
        }
        lemma_collapse(t);
        let p = collapse_dashes(t);
        let r = collapse_dashes(s);
        assert(s.last() == s[s.len() - 1]);
        if !(s.last() == '-' && p.len() > 0 && p.last() == '-') {
            assert(r == p.push(s.last()));
            assert forall|i: int| 0 <= i < r.len() - 1 implies !(#[trigger] r[i] == '-' && r[i + 1]
                == '-') by {
                assert(r[i] == p[i]);
                if i + 1 < p.len() {
                    assert(r[i + 1] == p[i + 1]);
                }
            }
        }
    }
}

proof fn lemma_prefix_well_formed(path: Seq<char>)
    ensures
        is_well_formed_name(archive_prefix(path)),
{
    let j = joined_components(path);
    lemma_joined_chars(path);
    lemma_collapse(j);
    let c = collapse_dashes(j);
    let t = strip_leading_dash(c);
    assert forall|i: int| 0 <= i < t.len() implies (is_kept(#[trigger] t[i]) || t[i] == '-') by {
        if c.len() > 0 && c[0] == '-' {
            assert(t[i] == c[i + 1]);
        }
    }
    assert(no_double_dash(t)) by {
        if c.len() > 0 && c[0] == '-' {
            assert forall|i: int| 0 <= i < t.len() - 1 implies !(#[trigger] t[i] == '-' && t[i + 1]
                == '-') by {
                assert(t[i] == c[i + 1]);
                assert(t[i + 1] == c[i + 2]);
            }
        }
    }
    assert(t.len() > 0 ==> t[0] != '-') by {
        if c.len() > 0 && c[0] == '-' && t.len() > 0 {
            assert(t[0] == c[1]);
        }
    }
    let r = lowercase(t);
    assert forall|i: int| 0 <= i < r.len() implies is_name_char(#[trigger] r[i]) by {
        assert(r[i] == ascii_lower(t[i]));
    }
    assert forall|i: int| 0 <= i < r.len() - 1 implies !(#[trigger] r[i] == '-' && r[i + 1]
        == '-') by {
        assert(r[i] == ascii_lower(t[i]));
        assert(r[i + 1] == ascii_lower(t[i + 1]));
    }
    if r.len() > 0 {
        assert(r[0] == ascii_lower(t[0]));
    }
}

fn lower_char(c: char) -> (r: char)
    ensures
        r == ascii_lower(c),
{
    if 'A' <= c && c <= 'Z' {
        ((c as u8) + 32) as char
    } else {
        c
    }
}

/// Relies on `String: FromIterator<char>`: the string holds the characters
/// in the order given.
#[verifier::external_body]
pub(crate) fn string_of_chars(cs: &Vec<char>) -> (r: String)
    ensures
        r@ == cs@,
{
    cs.iter().collect()
}

/// Derives the archive name of a directory from its absolute path: the path
/// is split on `/` and `_`, each component keeps only ASCII letters and
/// digits, the components are joined with `-`, runs of `-` are collapsed, a
/// leading `-` is dropped, and the result is lowercased.  The name only holds
/// `[a-z0-9-]`, never starts with `-` and never holds `--`.
pub fn get_archive_prefix(path: &str) -> (r: String)
    ensures
        r@ == archive_prefix(path@),
        is_well_formed_name(r@),
{
    let n = path.unicode_len();
    let mut joined: Vec<char> = Vec::new();
    let mut i: usize = 0;
    while i < n
        invariant
            n == path@.len(),
            i <= n,
            joined@ == joined_components(path@.subrange(0, i as int)),
        decreases n - i,
    {
        let c = path.get_char(i);
        assert(path@.subrange(0, i + 1).drop_last() == path@.subrange(0, i as int));
        if c == '/' || c == '_' {
            joined.push('-');
        } else if ('a' <= c && c <= 'z') || ('A' <= c && c <= 'Z') || ('0' <= c && c <= '9') {
            joined.push(c);
        }
        i = i + 1;
    }
    assert(path@.subrange(0, n as int) == path@);
    let mut collapsed: Vec<char> = Vec::new();
    let mut k: usize = 0;
    while k < joined.len()
        invariant
            k <= joined@.len(),
            collapsed@ == collapse_dashes(joined@.subrange(0, k as int)),
        decreases joined@.len() - k,
    {
        let c = joined[k];
        assert(joined@.subrange(0, k + 1).drop_last() == joined@.subrange(0, k as int));
        let clen = collapsed.len();
        if !(c == '-' && clen > 0 && collapsed[clen - 1] == '-') {
            collapsed.push(c);
        }
        k = k + 1;
    }
    assert(joined@.subrange(0, joined@.len() as int) == joined@);
    let start: usize = if collapsed.len() > 0 && collapsed[0] == '-' {
        1
    } else {
        0
    };
    let mut lowered: Vec<char> = Vec::new();
    let mut m: usize = start;
    while m < collapsed.len()
        invariant
            start <= m <= collapsed@.len(),
            start <= collapsed@.len(),
            lowered@ == lowercase(collapsed@.subrange(start as int, m as int)),
        decreases collapsed@.len() - m,
    {
        let c = lower_char(collapsed[m]);
        lowered.push(c);
        m = m + 1;
        assert(lowercase(collapsed@.subrange(start as int, m as int)) =~= lowercase(
            collapsed@.subrange(start as int, m - 1),
        ).push(ascii_lower(collapsed@[m - 1])));
    }
    assert(collapsed@.subrange(start as int, collapsed@.len() as int) =~= strip_leading_dash(
        collapsed@,
    ));
    proof {
        lemma_prefix_well_formed(path@);
    }
    string_of_chars(&lowered)
}

} // verus!
