//! The error taxonomy of the mapper: discovery, acquisition and
//! precondition failures, and mid-session I/O failures.

use vstd::prelude::*;

verus! {

/// Everything that the mapper can report to its caller.
///
/// `NoKeyboardsFound` comes from device discovery; `DeviceOpenFailed`
/// and `DeviceBusy` from acquiring the physical device and are fatal to
/// that start attempt; `NoControllers` and `AlreadyRunning` are
/// precondition violations of `start_mapping`; `IoFailure` ends a
/// running dispatch loop after the device has been released.
#[derive(Clone, Copy, Debug, PartialEq, Eq, Structural)]
pub enum AppError {
    NoKeyboardsFound,
    DeviceOpenFailed,
    DeviceBusy,
    NoControllers,
    AlreadyRunning,
    IoFailure,
}

impl AppError {
    /// A human-readable description, for the presentation layer.
    pub fn describe(&self) -> &'static str {
        match self {
            AppError::NoKeyboardsFound => "no keyboard devices found",
            AppError::DeviceOpenFailed => "failed to open the input device",
            AppError::DeviceBusy => "the input device is held by another process",
            AppError::NoControllers => "no controllers available to map",
            AppError::AlreadyRunning => "a mapping session is already running",
            AppError::IoFailure => "an I/O error ended the mapping session",
        }
    }
}

} // verus!
