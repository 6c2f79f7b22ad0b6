//! The single error taxonomy of the plugin: a failure reported by the
//! platform-native side, or a failure to read a wire-encoded value.

use vstd::prelude::*;

verus! {

/// Why an operation failed. Every failure is surfaced to the caller of the
/// failing operation and to nobody else; no operation retries or recovers.
#[derive(Clone, Debug)]
pub enum Error {
    /// The platform-native plugin call failed (platform exception, timeout,
    /// or a missing reply). The message is the native side's description.
    PluginInvoke { message: String },
    /// A wire-encoded value could not be produced or read.
    Serialization { message: String },
}

impl Error {
    /// The human-readable description carried by either variant.
    pub fn message(&self) -> (m: &str)
        ensures
            m@ == self.message_view(),
    {
        match self {
            Error::PluginInvoke { message } => message.as_str(),
            Error::Serialization { message } => message.as_str(),
        }
    }

    /// The description carried by either variant, as a character sequence.
    pub open spec fn message_view(&self) -> Seq<char> {
        match self {
            Error::PluginInvoke { message } => message@,
            Error::Serialization { message } => message@,
        }
    }
}

} // verus!
