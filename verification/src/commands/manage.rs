//! What `new`, `open` and `edit` decide about a project file.

use vstd::prelude::*;
use crate::config::{default_project, NO_LOCAL_FILE_MSG};
use crate::herdr_backend::opt_view;
use crate::text::{extend_str, string_of};

verus! {

/// The file a project is written to: the local project file, or the
/// project's file in `directory`.
pub fn config_path(directory: &str, name: &str, local: bool) -> (r: String)
    ensures
        r@ == if local {
            "./.tmuxinator.yml"@
        } else {
            directory@ + "/"@ + name@ + ".yml"@
        },
{
    if local {
        "./.tmuxinator.yml".to_owned()
    } else {
        default_project(directory, name)
    }
}

/// Whether `edit` may open the project file, which the caller found to
/// exist (`path_exists`) or not: a name or `--local` is needed, and the
/// file must exist.
pub fn edit(name: Option<&str>, local: bool, path_exists: bool) -> (r: Result<(), String>)
    ensures
        name is None && !local ==> (r matches Err(m) && m@
            == "`bootmux edit` requires a project name (or --local)."@),
        !(name is None && !local) ==> (r is Ok <==> path_exists),
        !(name is None && !local) && !path_exists ==> (r matches Err(m) && m@ == if local && name is None {
            NO_LOCAL_FILE_MSG@
        } else {
            "Project "@ + (match opt_view(name) {
                Some(n) => n,
                None => seq![],
            }) + " doesn't exist!"@
        }),
{
    if name.is_none() && !local {
        return Err("`bootmux edit` requires a project name (or --local).".to_owned());
    }
    if path_exists {
        return Ok(());
    }
    if local && name.is_none() {
        return Err(NO_LOCAL_FILE_MSG.to_owned());
    }
    let mut m: Vec<char> = Vec::new();
    extend_str(&mut m, "Project ");
    match name {
        Some(n) => extend_str(&mut m, n),
        None => {},
    }
    extend_str(&mut m, " doesn't exist!");
    Err(string_of(m.as_slice()))
}

} // verus!
