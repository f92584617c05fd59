//! Starting and stopping the daemon as a system service, implemented by
//! each platform.
use vstd::prelude::*;

verus! {

/// OS abstraction for service management. Errors are described in words.
pub trait ServiceManager {
    /// Starts the service.
    fn start_service(&self) -> Result<(), String>;

    /// Stops the service.
    fn stop_service(&self) -> Result<(), String>;

    /// Whether the service is running.
    fn is_running(&self) -> bool;
}

} // verus!
