use vstd::prelude::*;
use vstd::string::*;

use crate::processor::output::{path_parent, spec_path_parent};

verus! {

/// The folder that revealing a file opens: the file's parent folder, or the path
/// itself when it has no parent.
pub fn reveal_folder(file_path: &str) -> (r: String)
    ensures
        r@ == spec_path_parent(file_path@).unwrap_or(file_path@),
{
    match path_parent(file_path) {
        Some(p) => p,
        None => String::from_str(file_path),
    }
}

} // verus!
