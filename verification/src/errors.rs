use vstd::prelude::*;

verus! {

/// Failures of the Wi-Fi scanning pipeline as a whole.
#[derive(Debug, Clone, Copy, PartialEq, Eq, Structural)]
pub enum WifiManagerError {
    CommandExecutionFailure,
    OutputParsingError,
}

/// Failures of an attempt to join a network, classified from the
/// host tool's diagnostic text.
#[derive(Debug, Clone, Copy, PartialEq, Eq, Structural)]
pub enum WifiConnectionError {
    NoPasswordProvided,
    WrongPassword,
    NoSuchNetwork,
    UnknownError,
    AskingError,
}

/// Failures of creating or running an interface statistics monitor.
#[derive(Debug, Clone, Copy, PartialEq, Eq, Structural)]
pub enum StatsError {
    InvalidInterfaceName,
    InterfaceValidationError,
    UnknownError,
    NoAppInContext,
}

} // verus!
