use vstd::prelude::*;

verus! {

/// Lifecycle state of one web server.
#[derive(Clone, Copy, Debug, PartialEq, Eq, Hash, Structural)]
pub enum ServerStatus {
    /// Stopped on request; the server is not started again until asked to.
    Stopped,
    /// Waiting to be started, or being started; a fresh server starts here.
    Starting,
    /// The listener is bound and accepting connections.
    Running,
    /// A graceful shutdown was requested: no new connections are accepted.
    Shutdown,
    /// A graceful shutdown with a deadline is in progress; the server must not restart.
    ShuttingDown,
    /// The server could not start and will not retry.
    Failed,
    /// The server could not start and waits for its next retry.
    Retrying,
}

impl ServerStatus {
    /// Whether a server in this state may be (re)started by the manager.
    pub open spec fn spec_can_start(&self) -> bool {
        self == ServerStatus::Starting || self == ServerStatus::Retrying
    }

    /// Whether a shutdown was requested for a server in this state.
    pub open spec fn spec_shutdown_requested(&self) -> bool {
        self == ServerStatus::Shutdown || self == ServerStatus::ShuttingDown
    }

    #[verifier::when_used_as_spec(spec_can_start)]
    pub fn can_start(&self) -> (r: bool)
        ensures
            r == self.spec_can_start(),
    {
        match self {
            ServerStatus::Starting | ServerStatus::Retrying => true,
            _ => false,
        }
    }

    #[verifier::when_used_as_spec(spec_shutdown_requested)]
    pub fn shutdown_requested(&self) -> (r: bool)
        ensures
            r == self.spec_shutdown_requested(),
    {
        match self {
            ServerStatus::Shutdown | ServerStatus::ShuttingDown => true,
            _ => false,
        }
    }

    /// The name of the state, as `{:?}` prints it.
    pub open spec fn spec_name(self) -> Seq<char> {
        match self {
            ServerStatus::Stopped => "Stopped"@,
            ServerStatus::Starting => "Starting"@,
            ServerStatus::Running => "Running"@,
            ServerStatus::Shutdown => "Shutdown"@,
            ServerStatus::ShuttingDown => "ShuttingDown"@,
            ServerStatus::Failed => "Failed"@,
            ServerStatus::Retrying => "Retrying"@,
        }
    }

    pub fn name(&self) -> (r: &'static str)
        ensures
            r@ == self.spec_name(),
    {
        match self {
            ServerStatus::Stopped => "Stopped",
            ServerStatus::Starting => "Starting",
            ServerStatus::Running => "Running",
            ServerStatus::Shutdown => "Shutdown",
            ServerStatus::ShuttingDown => "ShuttingDown",
            ServerStatus::Failed => "Failed",
            ServerStatus::Retrying => "Retrying",
        }
    }
}

impl Default for ServerStatus {
    fn default() -> (r: Self)
        ensures
            r == ServerStatus::Starting,
    {
        ServerStatus::Starting
    }
}

/// No state both may be started and has a shutdown pending: a server whose
/// shutdown was requested is never restarted by the manager.
pub proof fn lemma_shutdown_excludes_start(s: ServerStatus)
    ensures
        s.spec_shutdown_requested() ==> !s.spec_can_start(),
{
}

} // verus!
