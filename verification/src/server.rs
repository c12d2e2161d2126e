use vstd::prelude::*;
use vstd::string::*;

use crate::ip::{IpAddress, default_ip, spec_default_ip, DEFAULT_PORT};
use crate::runtime::{ConnectionGuard, ConnectionTracker, TaskStore, TaskType, clone_router};
use crate::status::ServerStatus;

verus! {

/// The number of times a server that cannot bind is retried before it fails for good.
pub const MAX_RETRY_ATTEMPTS: usize = 100;

/// The wait between two attempts to start a server, in milliseconds (ten seconds).
pub const RETRY_DELAY_MS: u64 = 10_000;

/// The mathematical state of a [`WebServer`]. Times are milliseconds on the
/// application's monotonic clock.
pub struct WebServerView {
    pub ip: IpAddress,
    pub port: u16,
    pub router: axum::Router,
    pub status: ServerStatus,
    /// The task types for which a task is stored.
    pub tasks: Set<TaskType>,
    pub last_error: Option<Seq<char>>,
    pub retry_count: nat,
    pub next_retry_time: Option<u64>,
}

impl WebServerView {
    /// The state after an error was recorded: the error is kept and the server has failed.
    pub open spec fn with_error(self, error: Seq<char>) -> WebServerView {
        WebServerView { last_error: Some(error), status: ServerStatus::Failed, ..self }
    }

    /// The state after a stop: no task left, and the server stopped.
    pub open spec fn stopped(self) -> WebServerView {
        WebServerView { tasks: Set::empty(), status: ServerStatus::Stopped, ..self }
    }

    /// The state after a retry was scheduled at time `now`: while attempts are left
    /// one more is counted and due `RETRY_DELAY_MS` later; after the last one the
    /// server fails with the error "Max retry attempts reached".
    pub open spec fn retry_scheduled(self, now: u64) -> WebServerView {
        if self.retry_count < MAX_RETRY_ATTEMPTS {
            WebServerView {
                retry_count: self.retry_count + 1,
                next_retry_time: Some((now + RETRY_DELAY_MS) as u64),
                status: ServerStatus::Retrying,
                ..self
            }
        } else {
            self.with_error("Max retry attempts reached"@)
        }
    }

    /// Whether a retry may start at time `now`: attempts are left and the
    /// scheduled time, if any, has come.
    pub open spec fn retry_due(self, now: u64) -> bool {
        &&& self.retry_count < MAX_RETRY_ATTEMPTS
        &&& match self.next_retry_time {
            Some(t) => now >= t,
            None => true,
        }
    }

    /// The clock reading `now` leaves room for the retry time that a schedule would set.
    pub open spec fn can_schedule_at(self, now: u64) -> bool {
        self.retry_count < MAX_RETRY_ATTEMPTS ==> now + RETRY_DELAY_MS <= u64::MAX
    }
}

/// What the loop of a graceful shutdown waits for.
#[derive(Clone, Copy, Debug, PartialEq, Eq, Structural)]
pub enum ShutdownPhase {
    /// The accept loop has not exited yet.
    AwaitServerTask,
    /// Connections are still open.
    AwaitConnections,
}

/// What the loop of a graceful shutdown does next.
#[derive(Clone, Copy, Debug, PartialEq, Eq, Structural)]
pub enum ShutdownAction {
    /// Sleep `ERROR_SLEEP_INTERVAL_MS`, then check again in the given phase.
    Sleep(ShutdownPhase),
    /// Stop the server; the flag tells whether every connection closed in time.
    Finish(bool),
}

/// What one check of a graceful shutdown with a deadline decides, `elapsed`
/// milliseconds after it began: while the accept loop still runs and time is
/// left, wait for it; then, while connections are open and time is left, wait
/// for them; then finish, reporting whether no connection was left open.
pub open spec fn shutdown_step(phase: ShutdownPhase, elapsed: u64, timeout: u64, server_task_running: bool, active_connections: nat) -> ShutdownAction {
    if phase == ShutdownPhase::AwaitServerTask && elapsed < timeout && server_task_running {
        ShutdownAction::Sleep(ShutdownPhase::AwaitServerTask)
    } else if active_connections > 0 && elapsed < timeout {
        ShutdownAction::Sleep(ShutdownPhase::AwaitConnections)
    } else {
        ShutdownAction::Finish(active_connections == 0)
    }
}

/// One web server: where it listens, what it serves, and where it is in its lifecycle.
pub struct WebServer {
    ip: IpAddress,
    port: u16,
    router: axum::Router,
    status: ServerStatus,
    task_store: TaskStore,
    connection_tracker: ConnectionTracker,
    last_error: Option<String>,
    retry_count: usize,
    next_retry_time: Option<u64>,
}

impl View for WebServer {
    type V = WebServerView;

    closed spec fn view(&self) -> WebServerView {
        WebServerView {
            ip: self.ip,
            port: self.port,
            router: self.router,
            status: self.status,
            tasks: self.task_store.view(),
            last_error: match self.last_error {
                Some(e) => Some(e@),
                None => None,
            },
            retry_count: self.retry_count as nat,
            next_retry_time: self.next_retry_time,
        }
    }
}

impl WebServer {
    /// The pause after a failed `accept`, and between two checks while a server
    /// shuts down, in milliseconds.
    pub const ERROR_SLEEP_INTERVAL_MS: u64 = 100;

    #[verifier::type_invariant]
    closed spec fn inv(&self) -> bool {
        self.retry_count <= MAX_RETRY_ATTEMPTS
    }

    /// A server has used no more than `MAX_RETRY_ATTEMPTS` retries.
    pub fn check_retry_bound(&self)
        ensures
            self@.retry_count <= MAX_RETRY_ATTEMPTS,
    {
        proof {
            use_type_invariant(self);
        }
    }

    pub fn new(ip: IpAddress, port: u16, router: axum::Router) -> (r: WebServer)
        ensures
            r@ == (WebServerView {
                ip,
                port,
                router,
                status: ServerStatus::Starting,
                tasks: Set::empty(),
                last_error: None,
                retry_count: 0,
                next_retry_time: None,
            }),
    {
        WebServer {
            ip,
            port,
            router,
            status: ServerStatus::Starting,
            task_store: TaskStore::new(),
            connection_tracker: ConnectionTracker::new(),
            last_error: None,
            retry_count: 0,
            next_retry_time: None,
        }
    }

    pub fn ip(&self) -> (r: IpAddress)
        ensures
            r == self@.ip,
    {
        self.ip
    }

    pub fn port(&self) -> (r: u16)
        ensures
            r == self@.port,
    {
        self.port
    }

    pub fn router(&self) -> (r: &axum::Router)
        ensures
            *r == self@.router,
    {
        &self.router
    }

    pub fn set_ip(&mut self, ip: IpAddress)
        ensures
            final(self)@ == (WebServerView { ip, ..old(self)@ }),
    {
        proof {
            use_type_invariant(&*self);
        }
        self.ip = ip;
    }

    pub fn set_port(&mut self, port: u16)
        ensures
            final(self)@ == (WebServerView { port, ..old(self)@ }),
    {
        proof {
            use_type_invariant(&*self);
        }
        self.port = port;
    }

    pub fn set_router(&mut self, router: axum::Router)
        ensures
            final(self)@ == (WebServerView { router, ..old(self)@ }),
    {
        proof {
            use_type_invariant(&*self);
        }
        self.router = router;
    }

    /// Immediately stops the server: every task is cancelled and the server is `Stopped`.
    pub fn stop(&mut self)
        ensures
            final(self)@ == old(self)@.stopped(),
    {
        proof {
            use_type_invariant(&*self);
        }
        self.task_store = TaskStore::new();
        self.status = ServerStatus::Stopped;
    }

    /// Requests a graceful shutdown: the server stops accepting connections and
    /// lets the open ones complete.
    pub fn graceful_shutdown(&mut self)
        ensures
            final(self)@ == (WebServerView { status: ServerStatus::Shutdown, ..old(self)@ }),
    {
        proof {
            use_type_invariant(&*self);
        }
        self.status = ServerStatus::Shutdown;
    }

    pub fn shutdown_requested(&self) -> (r: bool)
        ensures
            r == self@.status.spec_shutdown_requested(),
    {
        self.status.shutdown_requested()
    }

    pub fn task_store(&self) -> (r: &TaskStore)
        ensures
            r.view() == self@.tasks,
    {
        &self.task_store
    }

    pub fn has_task(&self, task_type: &TaskType) -> (r: bool)
        ensures
            r == self@.tasks.contains(*task_type),
    {
        self.task_store.contains_key(task_type)
    }

    /// Stores a task of the server; a task stored under the same type is cancelled.
    pub fn insert_task(&mut self, task_type: TaskType, task: bevy_defer::Task<()>)
        ensures
            final(self)@ == (WebServerView { tasks: old(self)@.tasks.insert(task_type), ..old(self)@ }),
    {
        proof {
            use_type_invariant(&*self);
        }
        let mut store = self.take_task_store();
        store.insert(task_type, task);
        self.task_store = store;
    }

    /// Cancels and drops the task stored under `task_type`, if any.
    pub fn remove_task(&mut self, task_type: &TaskType)
        ensures
            final(self)@ == (WebServerView { tasks: old(self)@.tasks.remove(*task_type), ..old(self)@ }),
    {
        proof {
            use_type_invariant(&*self);
        }
        let mut store = self.take_task_store();
        store.remove(task_type);
        self.task_store = store;
    }

    /// Drops the tasks that have finished; no task is added and nothing else changes.
    pub fn cleanup_finished_tasks(&mut self)
        ensures
            final(self)@ == (WebServerView { tasks: final(self)@.tasks, ..old(self)@ }),
            final(self)@.tasks.subset_of(old(self)@.tasks),
    {
        proof {
            use_type_invariant(&*self);
        }
        let mut store = self.take_task_store();
        store.cleanup_finished_tasks();
        self.task_store = store;
    }

    /// Moves the task store out, leaving an empty one in its place.
    fn take_task_store(&mut self) -> (r: TaskStore)
        ensures
            r.view() == old(self)@.tasks,
            final(self)@ == (WebServerView { tasks: Set::empty(), ..old(self)@ }),
    {
        proof {
            use_type_invariant(&*self);
        }
        let mut store = TaskStore::new();
        std::mem::swap(&mut store, &mut self.task_store);
        store
    }

    /// The id of the next connection: the number of connections accepted so far.
    pub fn next_connection_id(&self) -> usize {
        self.connection_tracker.total_connections()
    }

    pub fn count_active_connections(&self) -> usize {
        self.connection_tracker.active_connections()
    }

    /// The connection counters of the server.
    pub closed spec fn connections(&self) -> ConnectionTracker {
        self.connection_tracker
    }

    /// Counts a new connection of the server as accepted and open; the guard
    /// counts it down again on the server's own counter of open connections.
    pub fn new_connection(&self) -> (r: ConnectionGuard)
        ensures
            r.released_counter() == self.connections().active_counter(),
    {
        self.connection_tracker.new_connection()
    }

    pub fn status(&self) -> (r: ServerStatus)
        ensures
            r == self@.status,
    {
        self.status
    }

    pub fn set_status(&mut self, status: ServerStatus)
        ensures
            final(self)@ == (WebServerView { status, ..old(self)@ }),
    {
        proof {
            use_type_invariant(&*self);
        }
        self.status = status;
    }

    pub fn last_error(&self) -> (r: Option<&str>)
        ensures
            match r {
                Some(e) => self@.last_error == Some(e@),
                None => self@.last_error is None,
            },
    {
        match &self.last_error {
            Some(e) => Some(e.as_str()),
            None => None,
        }
    }

    /// Records `error` as the last error and marks the server `Failed`.
    pub fn set_error(&mut self, error: String)
        ensures
            final(self)@ == old(self)@.with_error(error@),
    {
        proof {
            use_type_invariant(&*self);
        }
        self.last_error = Some(error);
        self.status = ServerStatus::Failed;
    }

    pub fn clear_error(&mut self)
        ensures
            final(self)@ == (WebServerView { last_error: None, ..old(self)@ }),
    {
        proof {
            use_type_invariant(&*self);
        }
        self.last_error = None;
    }

    /// The number of retries scheduled since the server last started; never more
    /// than `MAX_RETRY_ATTEMPTS`.
    pub fn retry_count(&self) -> (r: usize)
        ensures
            r == self@.retry_count,
            r <= MAX_RETRY_ATTEMPTS,
    {
        proof {
            use_type_invariant(self);
        }
        self.retry_count
    }

    /// Whether the server should retry starting at time `now_ms`: attempts are
    /// left and the retry delay has passed (or no retry time is set).
    pub fn should_retry(&self, now_ms: u64) -> (r: bool)
        ensures
            r == self@.retry_due(now_ms),
    {
        if self.retry_count >= MAX_RETRY_ATTEMPTS {
            return false;
        }
        match self.next_retry_time {
            Some(next_retry) => now_ms >= next_retry,
            None => true,
        }
    }

    /// Schedules the next retry at time `now_ms` plus the retry delay, or, when
    /// no attempt is left, records the error "Max retry attempts reached".
    pub fn schedule_retry(&mut self, now_ms: u64)
        requires
            old(self)@.can_schedule_at(now_ms),
        ensures
            final(self)@ == old(self)@.retry_scheduled(now_ms),
            final(self)@.retry_count <= MAX_RETRY_ATTEMPTS,
    {
        proof {
            use_type_invariant(&*self);
        }
        if self.retry_count < MAX_RETRY_ATTEMPTS {
            self.retry_count = self.retry_count + 1;
            self.next_retry_time = Some(now_ms + RETRY_DELAY_MS);
            self.status = ServerStatus::Retrying;
        } else {
            self.set_error(String::from_str("Max retry attempts reached"));
        }
    }

    /// Resets the retry counter, as when the server starts successfully.
    pub fn reset_retry_count(&mut self)
        ensures
            final(self)@ == (WebServerView { retry_count: 0, next_retry_time: None, ..old(self)@ }),
    {
        proof {
            use_type_invariant(&*self);
        }
        self.retry_count = 0;
        self.next_retry_time = None;
    }

    /// One check of a graceful shutdown with a deadline, `elapsed_ms` after it
    /// began, given whether the accept loop still runs and how many connections
    /// are open.
    pub fn graceful_shutdown_step(
        phase: ShutdownPhase,
        elapsed_ms: u64,
        timeout_ms: u64,
        server_task_running: bool,
        active_connections: usize,
    ) -> (r: ShutdownAction)
        ensures
            r == shutdown_step(phase, elapsed_ms, timeout_ms, server_task_running, active_connections as nat),
            active_connections > 0 && elapsed_ms < timeout_ms ==> r is Sleep,
            r == ShutdownAction::Finish(true) ==> active_connections == 0,
    {
        if phase == ShutdownPhase::AwaitServerTask && elapsed_ms < timeout_ms
            && server_task_running {
            ShutdownAction::Sleep(ShutdownPhase::AwaitServerTask)
        } else if active_connections > 0 && elapsed_ms < timeout_ms {
            ShutdownAction::Sleep(ShutdownPhase::AwaitConnections)
        } else {
            ShutdownAction::Finish(active_connections == 0)
        }
    }
}

impl Clone for WebServer {
    /// Copies the server's settings, router and state; the copy has no task and
    /// fresh connection counters.
    fn clone(&self) -> (r: Self)
        ensures
            r@ == (WebServerView { tasks: Set::empty(), ..self@ }),
    {
        proof {
            use_type_invariant(self);
        }
        WebServer {
            ip: self.ip,
            port: self.port,
            router: clone_router(&self.router),
            status: self.status,
            task_store: TaskStore::new(),
            connection_tracker: ConnectionTracker::new(),
            last_error: self.last_error.clone(),
            retry_count: self.retry_count,
            next_retry_time: self.next_retry_time,
        }
    }
}

/// Where the single server of the older, one-port interface listens.
#[derive(Clone, Copy, Debug, PartialEq, Eq, Structural)]
pub struct WebServerConfig {
    pub ip: IpAddress,
    pub port: u16,
}

impl Default for WebServerConfig {
    fn default() -> (r: Self)
        ensures
            r.ip == spec_default_ip(),
            r.port == DEFAULT_PORT,
    {
        WebServerConfig { ip: default_ip(), port: DEFAULT_PORT }
    }
}

} // verus!
