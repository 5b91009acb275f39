//! The error kinds of the session pipeline.

use vstd::prelude::*;

verus! {

/// Everything that can go wrong across the pipeline, writer and collectors.
#[derive(Clone, Copy, PartialEq, Eq, Structural, Debug)]
pub enum SessionError {
    /// A configuration was rejected: a missing dataset root, a session name
    /// that collides, or a frame buffer whose size does not match.
    ConfigInvalid,
    /// The operating system refused a resource: a counter, a window, a device
    /// registration, or the encoder could not be spawned.
    OsResource,
    /// Disk or pipe input/output failed.
    Io,
    /// The input worker's channel closed: the one collector runtime error
    /// that is surfaced.
    InputChannelClosed,
    /// The encoder exited with a non-zero status at finalize.
    EncoderExit,
    /// A poisoned lock or a worker panic.
    Internal,
}

impl SessionError {
    /// A short stable name for logs and user interfaces.
    pub fn name(&self) -> (r: &'static str)
        ensures
            r@ == self.spec_name(),
    {
        match self {
            SessionError::ConfigInvalid => "config_invalid",
            SessionError::OsResource => "os_resource",
            SessionError::Io => "io",
            SessionError::InputChannelClosed => "input_channel_closed",
            SessionError::EncoderExit => "encoder_exit",
            SessionError::Internal => "internal",
        }
    }

    pub open spec fn spec_name(&self) -> Seq<char> {
        match self {
            SessionError::ConfigInvalid => "config_invalid"@,
            SessionError::OsResource => "os_resource"@,
            SessionError::Io => "io"@,
            SessionError::InputChannelClosed => "input_channel_closed"@,
            SessionError::EncoderExit => "encoder_exit"@,
            SessionError::Internal => "internal"@,
        }
    }
}

} // verus!
