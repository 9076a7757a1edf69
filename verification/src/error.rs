use vstd::prelude::*;

verus! {

/// Errors reported by the network stack.
#[derive(Debug, Clone, Copy, PartialEq, Eq, Structural)]
pub enum NetError {
    PlatformInitFailed,
    PlatformRunFailed,
    PlatformShutdownFailed,
    SignalHandlerFailed,
    DeviceNameTooLong,
    DeviceNotFound,
    OperationsNotSet,
    DeviceDown,
    PacketTooLong,
    OutputNotSupported,
    ProtocolAlreadyRegistered,
}

impl NetError {
    /// The human-readable description of the error.
    pub fn message(&self) -> (s: &'static str)
        ensures
            s@ == self.spec_message()@,
    {
        match self {
            NetError::PlatformInitFailed => "platform initialization failed",
            NetError::PlatformRunFailed => "platform run failed",
            NetError::PlatformShutdownFailed => "platform shutdown failed",
            NetError::SignalHandlerFailed => "signal handler installation failed",
            NetError::DeviceNameTooLong => "device name is too long",
            NetError::DeviceNotFound => "device not found",
            NetError::OperationsNotSet => "device operations are not set",
            NetError::DeviceDown => "device is down",
            NetError::PacketTooLong => "packet is too long",
            NetError::OutputNotSupported => "ops.output is not supported",
            NetError::ProtocolAlreadyRegistered => "protocol type is already registered",
        }
    }

    /// The description that `message` gives for each error.
    pub open spec fn spec_message(&self) -> &'static str {
        match self {
            NetError::PlatformInitFailed => "platform initialization failed",
            NetError::PlatformRunFailed => "platform run failed",
            NetError::PlatformShutdownFailed => "platform shutdown failed",
            NetError::SignalHandlerFailed => "signal handler installation failed",
            NetError::DeviceNameTooLong => "device name is too long",
            NetError::DeviceNotFound => "device not found",
            NetError::OperationsNotSet => "device operations are not set",
            NetError::DeviceDown => "device is down",
            NetError::PacketTooLong => "packet is too long",
            NetError::OutputNotSupported => "ops.output is not supported",
            NetError::ProtocolAlreadyRegistered => "protocol type is already registered",
        }
    }
}

} // verus!
