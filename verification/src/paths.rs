//! Output path layout: `<root>/<subdir>/<base>.<host>.<index>.gz`. The
//! host tag in the file name is what keeps files of different producing
//! nodes apart; the subdirectory bounds how many files share a directory.

use vstd::prelude::*;
use crate::timestamp::{dec_rep, u64_to_dec};

verus! {

/// The directory that holds the files of one subdirectory id:
/// `<root>/<subdir>`.
pub open spec fn dir_path_spec(root: Seq<char>, subdir: u64) -> Seq<char> {
    root + seq!['/'] + dec_rep(subdir as nat)
}

/// Builds `<root>/<subdir>`.
pub fn dir_path(root: &str, subdir: u64) -> (r: String)
    ensures
        r@ == dir_path_spec(root@, subdir),
{
    let mut s = root.to_owned();
    s.append("/");
    let d = u64_to_dec(subdir);
    s.append(d.as_str());
    proof {
        reveal_strlit("/");
        assert(s@ =~= dir_path_spec(root@, subdir));
    }
    s
}

/// The full path of one chunk file:
/// `<root>/<subdir>/<base>.<host>.<index>.gz`.
pub open spec fn chunk_file_path_spec(
    root: Seq<char>,
    subdir: u64,
    base: Seq<char>,
    host: Seq<char>,
    index: u64,
) -> Seq<char> {
    dir_path_spec(root, subdir) + seq!['/'] + base + seq!['.'] + host + seq!['.'] + dec_rep(
        index as nat,
    ) + seq!['.', 'g', 'z']
}

/// Builds `<root>/<subdir>/<base>.<host>.<index>.gz`.
pub fn chunk_file_path(root: &str, subdir: u64, base: &str, host: &str, index: u64) -> (r:
    String)
    ensures
        r@ == chunk_file_path_spec(root@, subdir, base@, host@, index),
{
    let mut s = dir_path(root, subdir);
    s.append("/");
    s.append(base);
    s.append(".");
    s.append(host);
    s.append(".");
    let d = u64_to_dec(index);
    s.append(d.as_str());
    s.append(".gz");
    proof {
        reveal_strlit("/");
        reveal_strlit(".");
        reveal_strlit(".gz");
        assert(s@ =~= chunk_file_path_spec(root@, subdir, base@, host@, index));
    }
    s
}

} // verus!
