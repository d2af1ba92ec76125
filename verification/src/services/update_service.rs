//! What the client says of its version and of an update.

use crate::text::{concat2, owned};
use vstd::prelude::*;

verus! {

/// An update that is on offer.
#[derive(Debug)]
pub struct UpdateInfo {
    /// The version on offer.
    pub version: String,
    /// The version that is installed.
    pub current_version: String,
    /// The notes of the release.
    pub body: Option<String>,
    /// The date of the release.
    pub date: Option<String>,
}

/// The service that looks for updates.
#[derive(Debug)]
pub struct UpdateService {}

impl UpdateService {
    /// The version as the client shows it: `dev` for a build made for
    /// development, and the letter `v` before the version otherwise.
    pub fn version_display(version: &str, development: bool) -> (r: String)
        ensures
            r@ == if development {
                "dev"@
            } else {
                "v"@ + version@
            },
    {
        if development {
            owned("dev")
        } else {
            concat2("v", version)
        }
    }
}

} // verus!
