//! The names of what a run creates: the output directory of a source file
//! and the files of its slices.

use vstd::prelude::*;
use vstd::string::*;
use crate::decimal::{decimal, lemma_decimal_is_injective, push_decimal};

verus! {

/// The name of the output directory for a source file called `base`.
pub open spec fn output_dir_of(base: Seq<char>) -> Seq<char> {
    base + "_sliced"@
}

/// The name of the file that holds slice number `index`.
pub open spec fn slice_name(index: nat) -> Seq<char> {
    decimal(index) + ".bin"@
}

/// Slices with different numbers go to files with different names.
pub proof fn lemma_slice_names_differ(i: nat, j: nat)
    requires
        i != j,
    ensures
        slice_name(i) != slice_name(j),
{
    let ext = ".bin"@;
    if slice_name(i) == slice_name(j) {
        assert(decimal(i).len() == decimal(j).len()) by {
            assert(slice_name(i).len() == decimal(i).len() + ext.len());
        }
        assert(decimal(i) =~= slice_name(i).take(decimal(i).len() as int));
        assert(decimal(j) =~= slice_name(j).take(decimal(j).len() as int));
        lemma_decimal_is_injective(i, j);
    }
}

/// Calls `std::path::Path::file_name` on `path`: the last component of the
/// path, if it has one that names a file or a directory. Trusted, and nothing
/// is claimed of the answer, which follows the rules for paths of the system
/// that the program runs on.
#[verifier::external_body]
pub(crate) fn final_component(path: &str) -> (base: Option<String>) {
    match std::path::Path::new(path).file_name() {
        Some(name) => Some(name.to_string_lossy().into_owned()),
        None => None,
    }
}

/// The name of the output directory for a source file called `base`.
pub fn output_dir_name(base: &str) -> (dir: String)
    ensures
        dir@ == output_dir_of(base@),
{
    let mut dir = String::from_str(base);
    dir.append("_sliced");
    dir
}

/// The name of the file that holds slice number `index`.
pub fn slice_file_name(index: u64) -> (name: String)
    ensures
        name@ == slice_name(index as nat),
{
    let mut name = String::new();
    push_decimal(&mut name, index);
    name.append(".bin");
    name
}

} // verus!
