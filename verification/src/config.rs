//! The service handle: where the index lives and where the per-book
//! archives are looked for.

use vstd::prelude::*;

verus! {

/// The default archives directory, "./archive" as bytes.
pub open spec fn default_archives_dir() -> Seq<u8> {
    seq![46u8, 47u8, 97u8, 114u8, 99u8, 104u8, 105u8, 118u8, 101u8]
}

/// Paths of the two on-disk roots a catalog service works against.
#[derive(Debug)]
pub struct FlibRS {
    /// Root directory of the on-disk index.
    pub index_path: Vec<u8>,
    /// Directory holding the per-book archive files.
    pub zip_archives_dir: Vec<u8>,
}

impl FlibRS {
    /// Builds a handle; an omitted archives directory falls back to
    /// "./archive".
    pub fn new(index_path: Vec<u8>, zip_archives_dir: Option<Vec<u8>>) -> (r: FlibRS)
        ensures
            r.index_path@ == index_path@,
            match zip_archives_dir {
                Some(d) => r.zip_archives_dir@ == d@,
                None => r.zip_archives_dir@ == default_archives_dir(),
            },
    {
        let dir = match zip_archives_dir {
            Some(d) => d,
            None => {
                let mut v: Vec<u8> = Vec::new();
                v.push(46);
                v.push(47);
                v.push(97);
                v.push(114);
                v.push(99);
                v.push(104);
                v.push(105);
                v.push(118);
                v.push(101);
                proof {
                    assert(v@ =~= default_archives_dir());
                }
                v
            },
        };
        FlibRS { index_path, zip_archives_dir: dir }
    }
}

} // verus!
