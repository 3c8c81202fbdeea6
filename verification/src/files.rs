//! Which paths are analyzed
use vstd::prelude::*;

use crate::text::chars_eq;
use crate::textindex::chars_of;

verus! {

/// Whether a path given by the user is analyzed, from its extension: paths to non-Solidity files are ignored,
/// folders and paths without an extension are searched
pub fn is_solidity_path(extension: Option<&str>) -> (b: bool)
    ensures
        b == match extension {
            Some(e) => e@ == "sol"@,
            None => true,
        },
{
    match extension {
        Some(e) => {
            let cs = chars_of(e);
            let sol = chars_of("sol");
            chars_eq(&cs, &sol)
        },
        None => true,
    }
}

/// The text of what follows `root` in `path`, component by component, where `root` is a prefix of `path`
pub uninterp spec fn path_suffix(path: Seq<char>, root: Seq<char>) -> Option<Seq<char>>;

/// The rest of `path` after the prefix `root`, through `Path::strip_prefix` (the rest shown with
/// `to_string_lossy`)
#[verifier::external_body]
fn strip_root(path: &str, root: &str) -> (r: Option<String>)
    ensures
        match r {
            Some(s) => path_suffix(path@, root@) == Some(s@),
            None => path_suffix(path@, root@) is None,
        },
{
    std::path::Path::new(path).strip_prefix(root).ok().map(|p| p.to_string_lossy().into_owned())
}

/// The name under which a file is shown: its path relative to the root (typically the working directory)
/// where the file lies under it, its full path otherwise
pub fn source_name(path: &str, root: &str) -> (s: String)
    ensures
        s@ == match path_suffix(path@, root@) {
            Some(rest) => rest,
            None => path@,
        },
{
    match strip_root(path, root) {
        Some(rest) => rest,
        None => path.to_owned(),
    }
}

} // verus!
