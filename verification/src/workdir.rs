//! Working-directory resolution.
//!
//! When an application is launched, the directory it starts in is chosen with
//! a fixed precedence: a command-line override wins over the application's own
//! setting, which wins over the general section's setting; if none is present
//! the application inherits the caller's current directory.

use vstd::prelude::*;

verus! {

/// The directory an application should be launched in, chosen by precedence:
/// command-line override, then the application-level setting, then the
/// general-level setting; `None` if none of the three is present.
pub open spec fn spec_effective_working_directory(
    cli: Option<Seq<char>>,
    application: Option<Seq<char>>,
    general: Option<Seq<char>>,
) -> Option<Seq<char>> {
    if cli is Some {
        cli
    } else if application is Some {
        application
    } else {
        general
    }
}

/// Chooses the working directory for one application launch.
pub fn effective_working_directory(
    cli: Option<&String>,
    application: Option<&String>,
    general: Option<&String>,
) -> (r: Option<String>)
    ensures
        r.deep_view() == spec_effective_working_directory(
            cli.deep_view(),
            application.deep_view(),
            general.deep_view(),
        ),
{
    match cli {
        Some(d) => Some(d.clone()),
        None => match application {
            Some(d) => Some(d.clone()),
            None => match general {
                Some(d) => Some(d.clone()),
                None => None,
            },
        },
    }
}

} // verus!
