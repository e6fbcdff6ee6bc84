//! What is written to the registry when the launcher registers itself as a
//! browser: the values that depend on where the application lies.

use vstd::prelude::*;
use vstd::string::StringExecFns;
use crate::err::{ErrorView, LauncherError};

verus! {

/// The path under which the application can be registered, or the reason
/// why it cannot: the path must name a file, be absolute, and have a text.
pub open spec fn registered_path(is_file: bool, is_absolute: bool, text: Option<Seq<char>>) -> Result<
    Seq<char>,
    ErrorView,
> {
    if !is_file {
        Err(ErrorView::RegistryNoFile)
    } else if !is_absolute {
        Err(ErrorView::RegistryNotAbsolute)
    } else {
        match text {
            None => Err(ErrorView::RegistryInvalid),
            Some(path) => Ok(path),
        }
    }
}

/// A path result as contracts see it.
pub open spec fn path_seen(found: Result<String, LauncherError>) -> Result<Seq<char>, ErrorView> {
    match found {
        Ok(path) => Ok(path@),
        Err(why) => Err(why@),
    }
}

/// A text that may be missing, as contracts see it.
pub open spec fn text_seen(text: Option<String>) -> Option<Seq<char>> {
    match text {
        Some(text) => Some(text@),
        None => None,
    }
}

/// Decides on the path of the running application: `is_file` and `is_absolute`
/// say what the file system and the path tell, and `text` is the path as
/// text, where it has one.
pub fn app_path(is_file: bool, is_absolute: bool, text: Option<String>) -> (found: Result<
    String,
    LauncherError,
>)
    ensures
        path_seen(found) == registered_path(is_file, is_absolute, text_seen(text)),
{
    if !is_file {
        return Err(LauncherError::RegistryNoFile);
    }
    if !is_absolute {
        return Err(LauncherError::RegistryNotAbsolute);
    }
    match text {
        None => Err(LauncherError::RegistryInvalid),
        Some(path) => Ok(path),
    }
}

/// The icon of the application: the first icon in its own file.
pub fn app_icon(path: &str) -> (icon: String)
    ensures
        icon@ == path@ + ",0"@,
{
    path.to_owned().concat(",0")
}

/// The command that opens a URL with the application: its quoted path and
/// the quoted placeholder `%1`.
pub fn open_command(path: &str) -> (command: String)
    ensures
        command@ == "\""@ + path@ + "\" \"%1\""@,
{
    "\"".to_owned().concat(path).concat("\" \"%1\"")
}

} // verus!
