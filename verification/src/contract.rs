//! Building one package from the text of its manifest.

use crate::cargo_toml::package::{parse_toml, parsed_package};
use crate::document::{parsed_toml, ManifestSyntaxError};
use crate::pkg_build::{action_views, package_steps, Action};
use crate::BuildError;
use vstd::prelude::*;

verus! {

/// Builds the steps that make all the artifacts of the package whose
/// manifest is `manifest`, compiled in `contract_dir`. Builds with the
/// same fingerprint are compiled once: the first is compiled, and each
/// later one takes a copy of its artifact.
pub fn build_contract(contract_dir: &str, manifest: &str) -> (res: Result<
    Vec<Action>,
    ManifestSyntaxError,
>)
    ensures
        match parsed_toml(manifest@) {
            None => res matches Err(error) && error is Syntax,
            Some(document) => match parsed_package(document) {
                Ok(package) => res matches Ok(steps) && action_views(steps@) == package_steps(
                    contract_dir@,
                    package,
                ),
                Err(key) => res == Err::<Vec<Action>, _>(ManifestSyntaxError::Malformed(key)),
            },
        },
{
    match parse_toml(manifest) {
        Ok(package) => Ok(package.build(contract_dir)),
        Err(error) => Err(error),
    }
}

impl Action {
    /// Judges how a step ended. A step that did not succeed ends the run:
    /// a compile with the error of the toolchain, a move or a copy with
    /// that of the artifact that should have been at `from`.
    pub fn check(&self, succeeded: bool) -> (res: Result<(), BuildError>)
        ensures
            succeeded ==> res is Ok,
            !succeeded ==> res is Err && match *self {
                Action::Compile { directory, .. } => res->Err_0 is Compile
                    && res->Err_0->directory@ == directory@,
                Action::Rename { from, .. } => res->Err_0 is ArtifactIo && res->Err_0->path@
                    == from@,
                Action::Copy { from, .. } => res->Err_0 is ArtifactIo && res->Err_0->path@
                    == from@,
            },
    {
        if succeeded {
            return Ok(());
        }
        match self {
            Action::Compile { directory, .. } => Err(
                BuildError::Compile { directory: directory.clone() },
            ),
            Action::Rename { from, .. } => Err(BuildError::ArtifactIo { path: from.clone() }),
            Action::Copy { from, .. } => Err(BuildError::ArtifactIo { path: from.clone() }),
        }
    }
}

} // verus!
