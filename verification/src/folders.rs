//! The tool's folders under the operator's home directory. Locating the
//! home directory and creating folders on disk is the surrounding
//! program's job.

use vstd::prelude::*;

verus! {

/// The tool's private data folder, used for configuration storage.
pub fn data_folder(home: &str) -> (r: String)
    ensures
        r@ == home@ + "/.khost"@,
{
    let mut out = home.to_owned();
    out.append("/.khost");
    out
}

/// The folder that contains all installed applications.
pub fn root_folder(home: &str) -> (r: String)
    ensures
        r@ == home@ + "/kaspa"@,
{
    let mut out = home.to_owned();
    out.append("/kaspa");
    out
}

/// The staging folder for privileged file writes.
pub fn temp_folder(home: &str) -> (r: String)
    ensures
        r@ == home@ + "/.temp"@,
{
    let mut out = home.to_owned();
    out.append("/.temp");
    out
}

} // verus!
