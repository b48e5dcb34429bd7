//! The options of a traversal, settled once before it starts.

use crate::url::{GitHubUrl, PathPolicy, UrlError, UrlView};
use vstd::prelude::*;

verus! {

/// The options of a traversal as a mathematical value.
pub struct OptionsView {
    pub output_root: Seq<char>,
    pub ignore_subdirectories: bool,
    pub path_policy: PathPolicy,
}

/// What a traversal is run with. It is fixed when the traversal starts.
#[derive(Debug)]
pub struct TraversalOptions {
    /// The local directory below which the files are written.
    pub output_root: String,
    /// Whether subdirectories are left out.
    pub ignore_subdirectories: bool,
    /// How remote paths are mapped to places below the output directory.
    pub path_policy: PathPolicy,
}

impl View for TraversalOptions {
    type V = OptionsView;

    open spec fn view(&self) -> OptionsView {
        OptionsView {
            output_root: self.output_root@,
            ignore_subdirectories: self.ignore_subdirectories,
            path_policy: self.path_policy,
        }
    }
}

/// The policy that the choice to preserve the structure of paths stands for.
pub open spec fn policy_for(preserve_path_structure: bool) -> PathPolicy {
    if preserve_path_structure {
        PathPolicy::RootRelative
    } else {
        PathPolicy::RequestRelative
    }
}

/// The options that the caller's choices give for a request: without an
/// output directory, the name of the requested directory is taken.
pub open spec fn resolved_options(
    requested: UrlView,
    output: Option<Seq<char>>,
    ignore_subdirectories: bool,
    preserve_path_structure: bool,
) -> Result<OptionsView, UrlError> {
    let root = match output {
        Some(path) => Some(path),
        None => requested.basename(),
    };
    match root {
        Some(output_root) => Ok(
            OptionsView {
                output_root,
                ignore_subdirectories,
                path_policy: policy_for(preserve_path_structure),
            },
        ),
        None => Err(UrlError::EmptyPathError),
    }
}

/// The output directory that the caller chose, if any, as a text.
pub open spec fn chosen_output(output: Option<String>) -> Option<Seq<char>> {
    match output {
        Some(path) => Some(path@),
        None => None,
    }
}

impl TraversalOptions {
    /// Settles the options of a traversal from the caller's choices. Without
    /// an output directory, the name of the requested directory is taken.
    /// Paths are kept from the root of the repository if their structure is
    /// to be preserved, else from the requested directory.
    pub fn resolve(
        requested: &GitHubUrl,
        output: Option<String>,
        ignore_subdirectories: bool,
        preserve_path_structure: bool,
    ) -> (options: Result<TraversalOptions, UrlError>)
        ensures
            match options {
                Ok(o) => resolved_options(
                    requested@,
                    chosen_output(output),
                    ignore_subdirectories,
                    preserve_path_structure,
                ) == Ok::<OptionsView, UrlError>(o@),
                Err(e) => resolved_options(
                    requested@,
                    chosen_output(output),
                    ignore_subdirectories,
                    preserve_path_structure,
                ) == Err::<OptionsView, UrlError>(e),
            },
    {
        let output_root = match output {
            Some(path) => path,
            None => match requested.basename() {
                Ok(name) => name,
                Err(e) => {
                    return Err(e);
                },
            },
        };
        let path_policy = if preserve_path_structure {
            PathPolicy::RootRelative
        } else {
            PathPolicy::RequestRelative
        };
        Ok(TraversalOptions { output_root, ignore_subdirectories, path_policy })
    }
}

} // verus!
