//! Naming conventions: a catalog member `X.inp` points at the per-book
//! archive `<root>/X.zip`, and inside that archive the record with
//! identifier `id` is expected under the entry name `<id>.fb2`.

use vstd::prelude::*;
use vstd::slice::{slice_subrange, slice_to_vec};
use crate::numbers::dec_digits;
use crate::numbers::u64_to_dec;

verus! {

/// The catalog member suffix, ".inp" as bytes.
pub open spec fn inp_suffix() -> Seq<u8> {
    seq![46u8, 105u8, 110u8, 112u8]
}

/// The per-book archive suffix, ".zip" as bytes.
pub open spec fn zip_suffix() -> Seq<u8> {
    seq![46u8, 122u8, 105u8, 112u8]
}

/// The document entry suffix, ".fb2" as bytes.
pub open spec fn fb2_suffix() -> Seq<u8> {
    seq![46u8, 102u8, 98u8, 50u8]
}

pub open spec fn ends_with(s: Seq<u8>, suffix: Seq<u8>) -> bool {
    s.len() >= suffix.len() && s.subrange(s.len() - suffix.len(), s.len() as int) == suffix
}

/// Whether the byte string `s` ends with `suffix`.
pub fn has_suffix(s: &[u8], suffix: &[u8]) -> (r: bool)
    ensures
        r == ends_with(s@, suffix@),
{
    let n = s.len();
    let m = suffix.len();
    if n < m {
        return false;
    }
    let mut i: usize = 0;
    while i < m
        invariant
            0 <= i <= m,
            m <= n,
            n == s@.len(),
            m == suffix@.len(),
            forall|j: int| 0 <= j < i ==> s@[n - m + j] == suffix@[j],
        decreases m - i,
    {
        if s[n - m + i] != suffix[i] {
            proof {
                assert(s@.subrange(n - m, n as int)[i as int] != suffix@[i as int]);
            }
            return false;
        }
        i = i + 1;
    }
    proof {
        assert(s@.subrange(n - m, n as int) =~= suffix@);
    }
    true
}

/// Whether a container member name is a catalog member: it ends in ".inp".
pub fn is_catalog_member(name: &[u8]) -> (r: bool)
    ensures
        r == ends_with(name@, inp_suffix()),
{
    let mut suffix: Vec<u8> = Vec::new();
    suffix.push(46);
    suffix.push(105);
    suffix.push(110);
    suffix.push(112);
    proof {
        assert(suffix@ =~= inp_suffix());
    }
    has_suffix(name, suffix.as_slice())
}

/// The archive file name for a catalog member: the member name with its
/// ".inp" suffix replaced by ".zip". Meaningful only for catalog members.
pub open spec fn spec_archive_name(member: Seq<u8>) -> Seq<u8> {
    member.subrange(0, member.len() - inp_suffix().len()) + zip_suffix()
}

/// Derives the archive file name of a catalog member; `None` exactly when
/// the name does not end in ".inp".
pub fn derive_archive_name(member: &[u8]) -> (r: Option<Vec<u8>>)
    ensures
        match r {
            Some(v) => ends_with(member@, inp_suffix()) && v@ == spec_archive_name(member@),
            None => !ends_with(member@, inp_suffix()),
        },
{
    if !is_catalog_member(member) {
        return None;
    }
    let n = member.len();
    let mut v = slice_to_vec(slice_subrange(member, 0, n - 4));
    v.push(46);
    v.push(122);
    v.push(105);
    v.push(112);
    proof {
        assert(v@ =~= spec_archive_name(member@));
    }
    Some(v)
}

/// Path separator.
pub const SLASH: u8 = 47;

/// `name` under the directory `root`: the two joined with a single slash,
/// or `name` alone when `root` is empty.
pub open spec fn spec_join(root: Seq<u8>, name: Seq<u8>) -> Seq<u8> {
    if root.len() == 0 {
        name
    } else if root.last() == SLASH {
        root + name
    } else {
        root + seq![SLASH] + name
    }
}

/// Joins a directory path and a file name.
pub fn join_path(root: &[u8], name: &[u8]) -> (r: Vec<u8>)
    ensures
        r@ == spec_join(root@, name@),
{
    let mut v = slice_to_vec(root);
    if root.len() > 0 && root[root.len() - 1] != SLASH {
        v.push(SLASH);
    }
    let mut i: usize = 0;
    while i < name.len()
        invariant
            0 <= i <= name.len(),
            v@ =~= (if root@.len() == 0 || root@.last() == SLASH {
                root@
            } else {
                root@ + seq![SLASH]
            }) + name@.take(i as int),
        decreases name.len() - i,
    {
        v.push(name[i]);
        i = i + 1;
    }
    proof {
        assert(v@ =~= spec_join(root@, name@));
    }
    v
}

/// The archive path of a catalog member under the archives root directory.
pub open spec fn spec_archive_path(member: Seq<u8>, root: Seq<u8>) -> Seq<u8> {
    spec_join(root, spec_archive_name(member))
}

/// Resolves the archive path for a catalog member; `None` exactly when the
/// member name does not end in ".inp".
pub fn derive_archive_path(member: &[u8], root: &[u8]) -> (r: Option<Vec<u8>>)
    ensures
        match r {
            Some(v) => ends_with(member@, inp_suffix()) && v@ == spec_archive_path(member@, root@),
            None => !ends_with(member@, inp_suffix()),
        },
{
    match derive_archive_name(member) {
        None => None,
        Some(name) => Some(join_path(root, name.as_slice())),
    }
}

/// The entry name expected inside a per-book archive: the identifier in
/// decimal followed by ".fb2". An assumed convention: ingestion does not
/// record the true entry name, so extraction derives it from the identifier
/// alone.
pub open spec fn spec_entry_name(id: u64) -> Seq<u8> {
    dec_digits(id as nat) + fb2_suffix()
}

/// Builds the entry name for an identifier.
pub fn entry_name_for(id: u64) -> (r: Vec<u8>)
    ensures
        r@ == spec_entry_name(id),
{
    let mut v = u64_to_dec(id);
    v.push(46);
    v.push(102);
    v.push(98);
    v.push(50);
    proof {
        assert(v@ =~= spec_entry_name(id));
    }
    v
}

} // verus!
