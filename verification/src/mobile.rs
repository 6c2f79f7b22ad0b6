//! The mobile backend's protocol: which named native call each operation
//! makes, which platform plugin is addressed, and how a native reply or
//! failure becomes the operation's result. The native round trip itself is
//! the host runtime's; everything around it is decided here.

use vstd::prelude::*;

use crate::error::Error;
use crate::models::SafeAreaInsets;
use crate::wire::decode_safe_area_insets;
use crate::wire::spec_encode_insets;

verus! {

/// The operations the mobile backend forwards to the native plugin.
#[derive(Clone, Copy, Debug, PartialEq, Eq, Structural)]
pub enum Operation {
    GetSafeAreaInsets,
    Enable,
    Disable,
}

impl Operation {
    /// The name under which the native side exposes this operation.
    pub fn native_call_name(&self) -> (r: &'static str)
        ensures
            *self is GetSafeAreaInsets ==> r@ == "getSafeAreaInsets"@,
            *self is Enable ==> r@ == "enable"@,
            *self is Disable ==> r@ == "disable"@,
    {
        match self {
            Operation::GetSafeAreaInsets => "getSafeAreaInsets",
            Operation::Enable => "enable",
            Operation::Disable => "disable",
        }
    }
}

/// The Android package of the native plugin, baked in at build time.
pub fn android_plugin_identifier() -> (r: &'static str)
    ensures
        r@ == "com.plugin.edgetoedge"@,
{
    "com.plugin.edgetoedge"
}

/// The Android class of the native plugin, baked in at build time.
pub fn android_plugin_class() -> (r: &'static str)
    ensures
        r@ == "EdgeToEdgePlugin"@,
{
    "EdgeToEdgePlugin"
}

/// Turns the outcome of the `getSafeAreaInsets` native call into the
/// operation's result: a failure is passed through unmodified, and a reply
/// is exactly the wire text of the record returned.
pub fn insets_from_reply(reply: Result<String, Error>) -> (r: Result<SafeAreaInsets, Error>)
    ensures
        reply matches Err(e) ==> r == Err::<SafeAreaInsets, Error>(e),
        reply matches Ok(raw) ==> (r matches Ok(v) ==> v.wf() && raw@ == spec_encode_insets(
            v,
        )),
        reply matches Ok(raw) ==> (r is Err ==> forall|v: SafeAreaInsets| v.wf() ==> raw@
            != spec_encode_insets(v)),
        reply is Ok ==> (r matches Err(e) ==> e is Serialization),
{
    match reply {
        Ok(raw) => decode_safe_area_insets(raw.as_str()),
        Err(e) => Err(e),
    }
}

/// Turns the outcome of a unit native call (`enable`, `disable`) into the
/// operation's result: a failure is passed through unmodified, and any
/// reply is success.
pub fn unit_from_reply(reply: Result<String, Error>) -> (r: Result<(), Error>)
    ensures
        reply matches Err(e) ==> r == Err::<(), Error>(e),
        reply is Ok ==> r == Ok::<(), Error>(()),
{
    match reply {
        Ok(_) => Ok(()),
        Err(e) => Err(e),
    }
}

} // verus!
