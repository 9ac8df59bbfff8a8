//! The capability interface behind which backing processes are
//! launched. The reference implementation spawns an operating-system
//! process and lives with the host program; the stub here fabricates
//! handles so the supervisor can be exercised without touching the
//! operating system.

use vstd::prelude::*;
use crate::models::App;

verus! {

/// Failure inside a process provider.
#[derive(Clone, PartialEq, Eq, Debug)]
pub enum CmdProviderError {
    /// The record carries no usable binary path.
    InvalidBinaryPath(String),
    /// The app's log file could not be opened.
    LogBroken(String),
    /// Spawning the process failed.
    StartFailed(String),
    /// A path for the app could not be resolved.
    ConfigError(String),
}

impl CmdProviderError {
    /// The detail string the error carries.
    pub fn message(&self) -> (r: String)
        ensures
            r@ == (match self {
                CmdProviderError::InvalidBinaryPath(s) => s@,
                CmdProviderError::LogBroken(s) => s@,
                CmdProviderError::StartFailed(s) => s@,
                CmdProviderError::ConfigError(s) => s@,
            }),
    {
        match self {
            CmdProviderError::InvalidBinaryPath(s) => s.clone(),
            CmdProviderError::LogBroken(s) => s.clone(),
            CmdProviderError::StartFailed(s) => s.clone(),
            CmdProviderError::ConfigError(s) => s.clone(),
        }
    }
}

/// An opaque reference to a launched process.
pub trait Handle {
    /// The process id the handle stands for.
    fn id(&self) -> u32;
}

/// How a backing process is launched, set up and torn down. Variants
/// may allocate per-app resources in `setup` and release them in
/// `teardown`; `start` launches the process described by a deployed
/// record. Nothing is promised of these calls: the supervisor states
/// what it does with whatever they return.
pub trait Provider {
    type Handle: Handle;

    /// Launch the backing process for a deployed app.
    fn start(&mut self, app: &App) -> Result<Self::Handle, CmdProviderError>;

    /// Allocate provider-specific resources before first use.
    fn setup(&mut self, app: &App) -> Result<App, CmdProviderError>;

    /// Release provider-specific resources on deletion.
    fn teardown(&mut self, app: &App) -> Result<App, CmdProviderError>;
}

/// A fabricated process handle.
pub struct TestHandle {
    pub pid: u32,
}

impl Handle for TestHandle {
    fn id(&self) -> u32 {
        self.pid
    }
}

/// A stub provider: every launch succeeds with a fabricated,
/// monotonically assigned process id, and nothing touches the
/// operating system.
pub struct TestProvider {
    pub next_pid: u32,
}

impl Provider for TestProvider {
    type Handle = TestHandle;

    fn start(&mut self, _app: &App) -> Result<TestHandle, CmdProviderError> {
        let pid = self.next_pid;
        if self.next_pid < u32::MAX {
            self.next_pid = self.next_pid + 1;
        }
        Ok(TestHandle { pid })
    }

    fn setup(&mut self, app: &App) -> Result<App, CmdProviderError> {
        Ok(app.duplicate())
    }

    fn teardown(&mut self, app: &App) -> Result<App, CmdProviderError> {
        Ok(app.duplicate())
    }
}

} // verus!
