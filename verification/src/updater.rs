//! Where newer versions of the program are looked for.

use vstd::prelude::*;

use crate::paths::Platform;

verus! {

pub const REPO_OWNER: &'static str = "ryleqTheReal";

pub const REPO_NAME: &'static str = "valorant-watcher-rust";

pub const BIN_NAME: &'static str = "valorant-watcher";

/// What a release for a system has in its name.
pub fn update_target(platform: Platform) -> (r: &'static str)
    ensures
        match platform {
            Platform::Windows => r@ == "windows"@,
            Platform::MacOs => r@ == "macos"@,
        },
{
    match platform {
        Platform::Windows => "windows",
        Platform::MacOs => "macos",
    }
}

} // verus!
