//! The remote shell command strings the surrounding application sends over
//! its session: creating, renaming and deleting entries at a path. Building
//! the text is logic; sending it is not done here.

use crate::system_path::SystemPath;
use vstd::prelude::*;
use vstd::string::StringExecFns;

verus! {

/// The command that creates a directory at the path.
pub fn mkdir_command(path: &SystemPath) -> (r: String)
    ensures
        r@ == "mkdir \""@ + path.str_view() + "\""@,
{
    let mut out = String::new();
    out.append("mkdir \"");
    let p = path.get_path();
    out.append(p.as_str());
    out.append("\"");
    out
}

/// The command that creates an empty file at the path.
pub fn touch_command(path: &SystemPath) -> (r: String)
    ensures
        r@ == "touch \""@ + path.str_view() + "\""@,
{
    let mut out = String::new();
    out.append("touch \"");
    let p = path.get_path();
    out.append(p.as_str());
    out.append("\"");
    out
}

/// The command that renames the entry at the first path to the second.
pub fn move_command(from: &SystemPath, to: &SystemPath) -> (r: String)
    ensures
        r@ == "mv \""@ + from.str_view() + "\" \""@ + to.str_view() + "\""@,
{
    let mut out = String::new();
    out.append("mv \"");
    let f = from.get_path();
    out.append(f.as_str());
    out.append("\" \"");
    let t = to.get_path();
    out.append(t.as_str());
    out.append("\"");
    out
}

/// The command that deletes the entry at the path; deleting a directory needs
/// the recursive form.
pub fn remove_command(path: &SystemPath, recursive: bool) -> (r: String)
    ensures
        recursive ==> r@ == "rm -r \""@ + path.str_view() + "\""@,
        !recursive ==> r@ == "rm \""@ + path.str_view() + "\""@,
{
    let mut out = String::new();
    if recursive {
        out.append("rm -r \"");
    } else {
        out.append("rm \"");
    }
    let p = path.get_path();
    out.append(p.as_str());
    out.append("\"");
    out
}

} // verus!
