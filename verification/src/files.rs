//! The names of the files that a run leaves behind.

use vstd::prelude::*;
use vstd::string::*;

verus! {

/// What is added to the name of a serial file to name the file that keeps
/// its previous content.
pub const BACKUP_SUFFIX: &'static str = ".old";

/// The name of the file that keeps the previous content of the serial file
/// `name`: the name itself, followed by the backup suffix.
pub fn backup_name(name: &str) -> (res: String)
    ensures
        res@ == name@ + BACKUP_SUFFIX@,
{
    name.to_owned().concat(BACKUP_SUFFIX)
}

} // verus!
