//! The directories that the platform gives to an application.

use directories::ProjectDirs;
use std::path::Path;
use vstd::prelude::*;

verus! {

/// `directories::ProjectDirs`, the directories of one application.
#[verifier::external_type_specification]
#[verifier::external_body]
pub struct ExProjectDirs(ProjectDirs);

/// `ProjectDirs::from` gives the directories of an application, if the
/// platform has a home directory for the user. What it gives depends on the
/// platform and on the environment of the process.
pub assume_specification[ ProjectDirs::from ](
    qualifier: &str,
    organization: &str,
    application: &str,
) -> Option<ProjectDirs>;

/// Calls `ProjectDirs::config_dir`: the path of the configuration directory,
/// if it is valid UTF-8.
#[verifier::external_body]
pub(crate) fn config_dir(dirs: &ProjectDirs) -> Option<String> {
    dirs.config_dir().to_str().map(|s| s.to_owned())
}

/// Calls `ProjectDirs::config_local_dir`: the path of the local
/// configuration directory, if it is valid UTF-8.
#[verifier::external_body]
pub(crate) fn config_local_dir(dirs: &ProjectDirs) -> Option<String> {
    dirs.config_local_dir().to_str().map(|s| s.to_owned())
}

/// Calls `Path::join`: the path of `leaf` inside `dir`, if it is valid
/// UTF-8. The separator between the two is the platform's.
#[verifier::external_body]
pub(crate) fn path_in(dir: &str, leaf: &str) -> Option<String> {
    Path::new(dir).join(leaf).to_str().map(|s| s.to_owned())
}

} // verus!
