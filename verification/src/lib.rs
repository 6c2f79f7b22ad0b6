//! Edge-to-edge plugin core: safe-area insets, keyboard visibility, and the
//! wire encoding through which a host application exchanges them with a
//! platform-native backend.

pub mod desktop;
pub mod error;
pub mod mobile;
pub mod models;
pub mod wire;

pub use error::Error;
pub use models::KeyboardInfo;
pub use models::SafeAreaInsets;

use vstd::prelude::*;

verus! {

/// The name under which the host registers this plugin and its command
/// surface in its dispatch table.
pub fn plugin_name() -> (r: &'static str)
    ensures
        r@ == "edge-to-edge"@,
{
    "edge-to-edge"
}

} // verus!
