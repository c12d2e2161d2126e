use vstd::prelude::*;
use vstd::std_specs::hash::spec_keys_iter;
use vstd::std_specs::iter::IteratorSpec;
use vstd::string::*;
use std::collections::HashMap;

use crate::error::{IoErrorKind, IoFailure, IoFailureView, WebServerError, WebServerErrorView, WebServerResult};
use crate::ip::IpAddress;
use crate::runtime::{ConnectionGuard, TaskType, clone_router, new_router};
use crate::server::{MAX_RETRY_ATTEMPTS, WebServer, WebServerView};
use crate::status::ServerStatus;
use crate::text::{contains_text, decimal, decimal_text, has_substring, lemma_push_contains};

verus! {

broadcast use vstd::std_specs::hash::group_hash_axioms;

/// The keys of a map, each once, in the map's iteration order.
fn key_list(m: &HashMap<u16, WebServer>) -> (r: Vec<u16>)
    ensures
        r@.to_set() == m@.dom(),
        r@.no_duplicates(),
        r@.len() == m@.dom().len(),
{
    let mut r: Vec<u16> = Vec::new();
    for k in it: m.keys()
        invariant
            r@ == it.seq().take(it.index()).unref(),
    {
        r.push(*k);
        assert(r@ =~= it.seq().take(it.index() + 1).unref());
    }
    assert(r@ =~= spec_keys_iter(m).remaining().unref());
    proof {
        let s = spec_keys_iter(m).remaining();
        assert forall|i: int, j: int| 0 <= i < r@.len() && 0 <= j < r@.len() && i != j implies r@[i] != r@[j] by {
            assert(r@[i] == *s[i]);
            assert(r@[j] == *s[j]);
        }
        r@.unique_seq_to_set();
    }
    r
}

/// The servers of a registry, each by its view.
pub open spec fn views_of(m: Map<u16, WebServer>) -> Map<u16, WebServerView> {
    Map::new(|p: u16| m.contains_key(p), |p: u16| m[p]@)
}

/// The text of an optional message.
pub open spec fn text_of(o: Option<String>) -> Option<Seq<char>> {
    match o {
        Some(s) => Some(s@),
        None => None,
    }
}

/// The server that `add_server` registers: as given when the bind test passed;
/// otherwise with the bind error recorded and a retry scheduled at time `now`.
pub open spec fn admitted(server: WebServerView, bind_error: Option<Seq<char>>, now: u64) -> WebServerView {
    match bind_error {
        None => server,
        Some(e) => server.with_error(e).retry_scheduled(now),
    }
}

/// The error reported when an operation names a port on which no server is registered,
/// as the ECS access error `Custom("No server found on port")` converts.
pub open spec fn no_server_on_port() -> WebServerErrorView {
    WebServerErrorView::ConfigError { field: "custom"@, reason: "No server found on port"@ }
}

fn no_server_error() -> (e: WebServerError)
    ensures
        e@ == no_server_on_port(),
{
    WebServerError::config_error(String::from_str("custom"), String::from_str("No server found on port"))
}

/// The registry of web servers, one per port.
pub struct WebServerManager {
    servers: HashMap<u16, WebServer>,
}

impl View for WebServerManager {
    type V = Map<u16, WebServerView>;

    closed spec fn view(&self) -> Map<u16, WebServerView> {
        views_of(self.servers@)
    }
}

/// Every server is registered under the port it listens on, and has used no
/// more than `MAX_RETRY_ATTEMPTS` retries.
pub open spec fn registry_wf(m: Map<u16, WebServerView>) -> bool {
    forall|p: u16|
        #[trigger] m.contains_key(p) ==> m[p].port == p && m[p].retry_count <= MAX_RETRY_ATTEMPTS
}

impl WebServerManager {
    #[verifier::type_invariant]
    closed spec fn inv(&self) -> bool {
        registry_wf(views_of(self.servers@))
    }

    /// Moves the registry's map out, leaving an empty one in its place.
    fn take_servers(&mut self) -> (r: HashMap<u16, WebServer>)
        ensures
            r@ == old(self).servers@,
            final(self).servers@ == Map::<u16, WebServer>::empty(),
    {
        let mut m = HashMap::new();
        std::mem::swap(&mut m, &mut self.servers);
        m
    }

    /// The registry holds no server.
    pub fn new() -> (r: WebServerManager)
        ensures
            r@ == Map::<u16, WebServerView>::empty(),
    {
        let r = WebServerManager { servers: HashMap::new() };
        assert(r@ =~= Map::<u16, WebServerView>::empty());
        r
    }

    /// Every registered server listens on the port under which it is registered.
    pub fn check_registry(&self)
        ensures
            registry_wf(self@),
    {
        proof {
            use_type_invariant(self);
        }
    }

    pub fn has_server(&self, port: &u16) -> (r: bool)
        ensures
            r == self@.contains_key(*port),
    {
        self.servers.contains_key(port)
    }

    pub fn len(&self) -> (r: usize)
        ensures
            r == self@.len(),
    {
        proof {
            assert(self@.dom() =~= self.servers@.dom());
        }
        self.servers.len()
    }

    /// All ports on which a server is registered, each once, in no particular order.
    pub fn ports(&self) -> (r: Vec<u16>)
        ensures
            r@.to_set() == self@.dom(),
            r@.no_duplicates(),
    {
        proof {
            assert(self@.dom() =~= self.servers@.dom());
        }
        key_list(&self.servers)
    }

    pub fn get_server(&self, port: &u16) -> (r: Option<&WebServer>)
        ensures
            match r {
                Some(s) => self@.contains_key(*port) && s@ == self@[*port] && s@.port == *port
                    && *s == self.server_on(*port),
                None => !self@.contains_key(*port),
            },
    {
        proof {
            use_type_invariant(self);
        }
        let r = self.servers.get(port);
        proof {
            if r.is_some() {
                assert(self@.contains_key(*port));
            }
        }
        r
    }

    /// Registers `server` on its port. A port already taken is an error and leaves
    /// the registry unchanged. `bind_error` is the text of the failed bind test on
    /// that port, if it failed: the server is then registered with the error
    /// recorded and a retry scheduled at time `now_ms`.
    pub fn add_server(&mut self, server: WebServer, bind_error: Option<String>, now_ms: u64) -> (r: WebServerResult<()>)
        requires
            bind_error is Some ==> server@.can_schedule_at(now_ms),
        ensures
            old(self)@.contains_key(server@.port) ==> {
                &&& r matches Err(e) && e@ == (WebServerErrorView::ServerAlreadyRunning { port: server@.port })
                &&& final(self)@ == old(self)@
            },
            !old(self)@.contains_key(server@.port) ==> {
                &&& r is Ok
                &&& final(self)@ == old(self)@.insert(
                    server@.port,
                    admitted(server@, text_of(bind_error), now_ms),
                )
            },
            registry_wf(final(self)@),
            r is Ok ==> final(self)@.len() == old(self)@.len() + 1,
            r is Err ==> final(self)@.len() == old(self)@.len(),
    {
        proof {
            use_type_invariant(&*self);
            assert(old(self)@.dom() =~= old(self).servers@.dom());
        }
        let port = server.port();
        if self.servers.contains_key(&port) {
            return Err(WebServerError::server_already_running(port));
        }
        let mut server = server;
        match bind_error {
            None => {},
            Some(e) => {
                server.set_error(e);
                server.schedule_retry(now_ms);
            },
        }
        self.reattach(server);
        proof {
            use_type_invariant(&*self);
            assert(self@.dom() =~= old(self)@.dom().insert(port));
        }
        Ok(())
    }

    /// Takes the server on `port` out of the registry.
    fn detach(&mut self, port: &u16) -> (r: Option<WebServer>)
        ensures
            match r {
                Some(s) => {
                    &&& old(self)@.contains_key(*port)
                    &&& s@ == old(self)@[*port]
                    &&& s@.port == *port
                    &&& final(self)@ == old(self)@.remove(*port)
                },
                None => !old(self)@.contains_key(*port) && final(self)@ == old(self)@,
            },
    {
        proof {
            use_type_invariant(&*self);
        }
        let mut servers = self.take_servers();
        let r = servers.remove(port);
        proof {
            assert(views_of(servers@) =~= views_of(old(self).servers@).remove(*port));
            assert forall|p: u16| #[trigger] views_of(servers@).contains_key(p) implies
                views_of(servers@)[p].port == p && views_of(servers@)[p].retry_count <= MAX_RETRY_ATTEMPTS by {
                assert(views_of(old(self).servers@).contains_key(p));
            }
            if r.is_some() {
                assert(views_of(old(self).servers@).contains_key(*port));
            }
        }
        self.servers = servers;
        r
    }

    /// Puts a server back into the registry, under its own port.
    fn reattach(&mut self, server: WebServer)
        requires
            !old(self)@.contains_key(server@.port),
        ensures
            final(self)@ == old(self)@.insert(server@.port, server@),
    {
        proof {
            use_type_invariant(&*self);
        }
        server.check_retry_bound();
        let port = server.port();
        let mut servers = self.take_servers();
        servers.insert(port, server);
        proof {
            assert(views_of(servers@) =~= views_of(old(self).servers@).insert(port, server@));
            assert forall|p: u16| #[trigger] views_of(servers@).contains_key(p) implies
                views_of(servers@)[p].port == p && views_of(servers@)[p].retry_count <= MAX_RETRY_ATTEMPTS by {
                if p != port {
                    assert(views_of(old(self).servers@).contains_key(p));
                }
            }
        }
        self.servers = servers;
    }

    /// Removes the server on `port`, if any, stopping it.
    pub fn remove_server(&mut self, port: &u16)
        ensures
            final(self)@ == old(self)@.remove(*port),
    {
        if let Some(mut server) = self.detach(port) {
            server.stop();
        }
    }

    /// Stops the server on `port`, if any; it stays registered.
    pub fn stop_server(&mut self, port: &u16)
        ensures
            final(self)@ == (if old(self)@.contains_key(*port) {
                old(self)@.insert(*port, old(self)@[*port].stopped())
            } else {
                old(self)@
            }),
    {
        if let Some(mut server) = self.detach(port) {
            server.stop();
            self.reattach(server);
        }
    }

    /// Stops every server and empties the registry.
    pub fn stop_all(&mut self)
        ensures
            final(self)@ == Map::<u16, WebServerView>::empty(),
    {
        proof {
            use_type_invariant(&*self);
        }
        let mut servers = self.take_servers();
        servers.clear();
        self.servers = servers;
        assert(self@ =~= Map::<u16, WebServerView>::empty());
    }

    /// Requests a graceful shutdown of the server on `port`, unless one with a
    /// deadline is already in progress there.
    pub fn graceful_shutdown(&mut self, port: &u16)
        ensures
            final(self)@ == (if old(self)@.contains_key(*port) && old(self)@[*port].status
                != ServerStatus::ShuttingDown {
                old(self)@.insert(
                    *port,
                    WebServerView { status: ServerStatus::Shutdown, ..old(self)@[*port] },
                )
            } else {
                old(self)@
            }),
    {
        if let Some(mut server) = self.detach(port) {
            if server.status() != ServerStatus::ShuttingDown {
                server.graceful_shutdown();
            }
            self.reattach(server);
        }
    }

    /// Starts a graceful shutdown with a deadline of the server on `port`: the
    /// server is marked `ShuttingDown`, so that it is not restarted, and `true` is
    /// returned; the caller then watches the deadline. Without a server on `port`
    /// nothing changes and `false` is returned.
    pub fn graceful_shutdown_with_timeout(&mut self, port: &u16) -> (r: bool)
        ensures
            r == old(self)@.contains_key(*port),
            final(self)@ == (if r {
                old(self)@.insert(
                    *port,
                    WebServerView { status: ServerStatus::ShuttingDown, ..old(self)@[*port] },
                )
            } else {
                old(self)@
            }),
    {
        if let Some(mut server) = self.detach(port) {
            server.set_status(ServerStatus::ShuttingDown);
            self.reattach(server);
            self.graceful_shutdown(port);
            true
        } else {
            false
        }
    }

    /// Marks the server on `port` as shutting down gracefully, whatever its state,
    /// and tells whether there was one.
    pub fn request_graceful_shutdown(&mut self, port: &u16) -> (r: bool)
        ensures
            r == old(self)@.contains_key(*port),
            final(self)@ == (if r {
                old(self)@.insert(
                    *port,
                    WebServerView { status: ServerStatus::Shutdown, ..old(self)@[*port] },
                )
            } else {
                old(self)@
            }),
    {
        if let Some(mut server) = self.detach(port) {
            server.graceful_shutdown();
            self.reattach(server);
            true
        } else {
            false
        }
    }

    /// Replaces the router of the server on `port`, if any.
    pub fn set_router(&mut self, port: &u16, router: axum::Router)
        ensures
            final(self)@ == (if old(self)@.contains_key(*port) {
                old(self)@.insert(*port, WebServerView { router, ..old(self)@[*port] })
            } else {
                old(self)@
            }),
    {
        if let Some(mut server) = self.detach(port) {
            server.set_router(router);
            self.reattach(server);
        }
    }

    /// Updates the server on `port` at runtime: a registered server keeps its state
    /// and now listens on `ip` and serves `router`; on a free port a new server is
    /// registered as `add_server` registers it, `bind_error` being the text of the
    /// failed bind test on that port, if it failed.
    pub fn update_server(&mut self, ip: IpAddress, port: u16, router: axum::Router, bind_error: Option<String>, now_ms: u64)
        requires
            !old(self)@.contains_key(port) && bind_error is Some ==> now_ms + crate::server::RETRY_DELAY_MS <= u64::MAX,
        ensures
            final(self)@ == (if old(self)@.contains_key(port) {
                old(self)@.insert(port, WebServerView { ip, router, ..old(self)@[port] })
            } else {
                old(self)@.insert(port, admitted(fresh_server(ip, port, router), text_of(bind_error), now_ms))
            }),
    {
        if let Some(mut server) = self.detach(&port) {
            server.set_ip(ip);
            server.set_router(router);
            self.reattach(server);
        } else {
            let _ = self.add_server(WebServer::new(ip, port, router), bind_error, now_ms);
        }
    }

    /// Schedules a retry of the server on `port`, if any, at time `now_ms`.
    pub fn schedule_retry(&mut self, port: &u16, now_ms: u64)
        requires
            old(self)@.contains_key(*port) ==> old(self)@[*port].can_schedule_at(now_ms),
        ensures
            final(self)@ == (if old(self)@.contains_key(*port) {
                old(self)@.insert(*port, old(self)@[*port].retry_scheduled(now_ms))
            } else {
                old(self)@
            }),
    {
        if let Some(mut server) = self.detach(port) {
            server.schedule_retry(now_ms);
            self.reattach(server);
        }
    }

    /// Records that the server on `port` bound its listener: it is `Running` and
    /// its retries are reset.
    pub fn server_listening(&mut self, port: &u16)
        ensures
            final(self)@ == (if old(self)@.contains_key(*port) {
                old(self)@.insert(
                    *port,
                    WebServerView {
                        status: ServerStatus::Running,
                        retry_count: 0,
                        next_retry_time: None,
                        ..old(self)@[*port]
                    },
                )
            } else {
                old(self)@
            }),
    {
        if let Some(mut server) = self.detach(port) {
            server.set_status(ServerStatus::Running);
            server.reset_retry_count();
            self.reattach(server);
        }
    }

    /// The last error of the server on `port`, if there is a server and it has one.
    pub fn server_error(&self, port: &u16) -> (r: Option<&str>)
        ensures
            match r {
                Some(e) => self@.contains_key(*port) && self@[*port].last_error == Some(e@),
                None => !self@.contains_key(*port) || self@[*port].last_error is None,
            },
    {
        match self.get_server(port) {
            Some(server) => server.last_error(),
            None => None,
        }
    }

    /// Whether the server on `port` failed to start.
    pub fn server_failed(&self, port: &u16) -> (r: bool)
        ensures
            r == (self@.contains_key(*port) && self@[*port].status == ServerStatus::Failed),
    {
        match self.get_server(port) {
            Some(server) => server.status() == ServerStatus::Failed,
            None => false,
        }
    }

    /// Whether a shutdown was requested for the server on `port`.
    pub fn shutdown_requested(&self, port: &u16) -> (r: bool)
        ensures
            r == (self@.contains_key(*port) && self@[*port].status.spec_shutdown_requested()),
    {
        match self.get_server(port) {
            Some(server) => server.shutdown_requested(),
            None => false,
        }
    }

    /// The number of open connections of the server on `port`; 0 without a server.
    /// The count is read from counters that connection tasks change concurrently.
    pub fn active_connections(&self, port: &u16) -> (r: usize)
        ensures
            !self@.contains_key(*port) ==> r == 0,
    {
        match self.get_server(port) {
            Some(server) => server.count_active_connections(),
            None => 0,
        }
    }

    /// Whether the server on `port` has a running accept-loop task.
    pub fn has_server_task(&self, port: &u16) -> (r: bool)
        ensures
            r == (self@.contains_key(*port) && self@[*port].tasks.contains(TaskType::Server)),
    {
        match self.get_server(port) {
            Some(server) => server.has_task(&TaskType::Server),
            None => false,
        }
    }

    pub fn router(&self, port: &u16) -> (r: Option<&axum::Router>)
        ensures
            match r {
                Some(router) => self@.contains_key(*port) && *router == self@[*port].router,
                None => !self@.contains_key(*port),
            },
    {
        match self.get_server(port) {
            Some(server) => Some(server.router()),
            None => None,
        }
    }

    /// A copy of the router of the server on `port`, or an empty router without one.
    pub fn cloned_router(&self, port: &u16) -> (r: axum::Router)
        ensures
            self@.contains_key(*port) ==> r == self@[*port].router,
    {
        match self.get_server(port) {
            Some(server) => clone_router(server.router()),
            None => new_router(),
        }
    }

    /// Where the server on `port` listens, and a copy of its router.
    pub fn server_info(&self, port: &u16) -> (r: WebServerResult<(IpAddress, u16, axum::Router)>)
        ensures
            match r {
                Ok((ip, p, router)) => self@.contains_key(*port) && ip == self@[*port].ip && p == *port
                    && router == self@[*port].router,
                Err(e) => !self@.contains_key(*port) && e@ == no_server_on_port(),
            },
    {
        match self.get_server(port) {
            Some(server) => Ok((server.ip(), server.port(), clone_router(server.router()))),
            None => Err(no_server_error()),
        }
    }

    /// The first half of starting the server on `port`: a server that already has
    /// an accept-loop task, or no server, is an error and nothing changes;
    /// otherwise its last error is cleared and it is marked `Starting`. The caller
    /// then spawns the accept loop and hands its task to `attach_server_task`.
    pub fn prepare_start(&mut self, port: &u16) -> (r: WebServerResult<()>)
        ensures
            old(self)@.contains_key(*port) && old(self)@[*port].tasks.contains(TaskType::Server)
                ==> {
                &&& r matches Err(e) && e@ == (WebServerErrorView::ServerAlreadyRunning { port: *port })
                &&& final(self)@ == old(self)@
            },
            !old(self)@.contains_key(*port) ==> {
                &&& r matches Err(e) && e@ == (WebServerErrorView::ServerNotFound { port: *port })
                &&& final(self)@ == old(self)@
            },
            old(self)@.contains_key(*port) && !old(self)@[*port].tasks.contains(TaskType::Server)
                ==> {
                &&& r is Ok
                &&& final(self)@ == old(self)@.insert(
                    *port,
                    WebServerView {
                        last_error: None,
                        status: ServerStatus::Starting,
                        ..old(self)@[*port]
                    },
                )
            },
    {
        let port = *port;
        if self.has_server_task(&port) {
            return Err(WebServerError::server_already_running(port));
        }
        match self.detach(&port) {
            Some(mut server) => {
                server.clear_error();
                server.set_status(ServerStatus::Starting);
                self.reattach(server);
                Ok(())
            },
            None => Err(WebServerError::server_not_found(port)),
        }
    }

    /// The second half of starting the server on `port`: stores its accept-loop
    /// task. Without a server on `port` the task is cancelled and an error returned.
    pub fn attach_server_task(&mut self, port: &u16, task: bevy_defer::Task<()>) -> (r: WebServerResult<()>)
        ensures
            old(self)@.contains_key(*port) ==> r is Ok && final(self)@ == old(self)@.insert(
                *port,
                WebServerView {
                    tasks: old(self)@[*port].tasks.insert(TaskType::Server),
                    ..old(self)@[*port]
                },
            ),
            !old(self)@.contains_key(*port) ==> {
                &&& r matches Err(e) && e@ == (WebServerErrorView::ServerNotFound { port: *port })
                &&& final(self)@ == old(self)@
            },
    {
        match self.detach(port) {
            Some(mut server) => {
                server.insert_task(TaskType::Server, task);
                self.reattach(server);
                Ok(())
            },
            None => Err(WebServerError::server_not_found(*port)),
        }
    }

    /// The id for the next connection of the server on `port`: the number of
    /// connections it accepted so far.
    pub fn connection_id(&self, port: &u16) -> (r: WebServerResult<usize>)
        ensures
            r is Ok == self@.contains_key(*port),
            r matches Err(e) ==> e@ == no_server_on_port(),
    {
        match self.get_server(port) {
            Some(server) => Ok(server.next_connection_id()),
            None => Err(no_server_error()),
        }
    }

    /// The server registered on `port`, as it is stored (its view is `self@[port]`).
    pub closed spec fn server_on(&self, port: u16) -> WebServer {
        self.servers@[port]
    }

    /// Counts a new open connection of the server on `port`; the guard counts it
    /// down again on that server's own counter of open connections.
    pub fn new_connection(&self, port: &u16) -> (r: WebServerResult<ConnectionGuard>)
        ensures
            r is Ok == self@.contains_key(*port),
            r matches Err(e) ==> e@ == no_server_on_port(),
            r matches Ok(g) ==> g.released_counter() == self.server_on(*port).connections().active_counter(),
    {
        match self.get_server(port) {
            Some(server) => Ok(server.new_connection()),
            None => Err(no_server_error()),
        }
    }

    /// Stores the task serving connection `id` of the server on `port`. Without a
    /// server on `port` the task is cancelled and an error returned.
    pub fn add_connection_task(&mut self, port: &u16, id: usize, task: bevy_defer::Task<()>) -> (r: WebServerResult<()>)
        ensures
            old(self)@.contains_key(*port) ==> r is Ok && final(self)@ == old(self)@.insert(
                *port,
                WebServerView {
                    tasks: old(self)@[*port].tasks.insert(TaskType::Connection(id)),
                    ..old(self)@[*port]
                },
            ),
            !old(self)@.contains_key(*port) ==> {
                &&& r matches Err(e) && e@ == no_server_on_port()
                &&& final(self)@ == old(self)@
            },
    {
        match self.detach(port) {
            Some(mut server) => {
                server.insert_task(TaskType::Connection(id), task);
                self.reattach(server);
                Ok(())
            },
            None => Err(no_server_error()),
        }
    }

    /// Drops the task of connection `id` of the server on `port`, if any.
    pub fn remove_connection_task(&mut self, port: &u16, id: usize)
        ensures
            final(self)@ == (if old(self)@.contains_key(*port) {
                old(self)@.insert(
                    *port,
                    WebServerView {
                        tasks: old(self)@[*port].tasks.remove(TaskType::Connection(id)),
                        ..old(self)@[*port]
                    },
                )
            } else {
                old(self)@
            }),
    {
        if let Some(mut server) = self.detach(port) {
            server.remove_task(&TaskType::Connection(id));
            self.reattach(server);
        }
    }
}

/// An error text that reports a failure to bind: it mentions "already in use" or "bind".
pub open spec fn is_bind_failure(text: Seq<char>) -> bool {
    has_substring(text, "already in use"@) || has_substring(text, "bind"@)
}

/// The state of a server after its accept loop ended, with the error text if it
/// failed: the error is recorded, and a bind failure is retried while other
/// failures are final; a loop that ended without error (it stops accepting once
/// a shutdown was requested) leaves the server's state as it was.
pub open spec fn after_run(s: WebServerView, error: Option<Seq<char>>, now: u64) -> WebServerView {
    match error {
        Some(e) => if is_bind_failure(e) {
            s.with_error(e).retry_scheduled(now)
        } else {
            s.with_error(e)
        },
        None => s,
    }
}

fn is_bind_failure_text(text: &str) -> (r: bool)
    ensures
        r == is_bind_failure(text@),
{
    contains_text(text, "already in use") || contains_text(text, "bind")
}

impl WebServerManager {
    /// Records how the accept loop of the server on `port` ended: `error` is the
    /// displayed text of its error, if it failed.
    pub fn server_run_finished(&mut self, port: &u16, error: Option<String>, now_ms: u64)
        requires
            old(self)@.contains_key(*port) && error is Some ==> old(self)@[*port].can_schedule_at(now_ms),
        ensures
            final(self)@ == (if old(self)@.contains_key(*port) {
                old(self)@.insert(*port, after_run(old(self)@[*port], text_of(error), now_ms))
            } else {
                old(self)@
            }),
    {
        if let Some(mut server) = self.detach(port) {
            match error {
                Some(text) => {
                    let bind = is_bind_failure_text(text.as_str());
                    server.set_error(text);
                    if bind {
                        server.schedule_retry(now_ms);
                    } else {
                        server.set_status(ServerStatus::Failed);
                    }
                },
                None => {},
            }
            self.reattach(server);
        }
    }
}

/// A server in the state that `WebServer::new` gives it.
pub open spec fn fresh_server(ip: IpAddress, port: u16, router: axum::Router) -> WebServerView {
    WebServerView {
        ip,
        port,
        router,
        status: ServerStatus::Starting,
        tasks: Set::empty(),
        last_error: None,
        retry_count: 0,
        next_retry_time: None,
    }
}

/// The operation named when a server fails while starting.
pub open spec fn startup_operation(port: u16) -> Seq<char> {
    "server startup on port "@ + decimal(port as nat)
}

/// What one check while waiting for the server on `port` to start, `elapsed`
/// milliseconds after the wait began, decides: `None` to keep waiting, or the
/// outcome of the wait.
pub open spec fn start_wait_outcome(m: Map<u16, WebServerView>, port: u16, elapsed: u64, timeout: u64) -> Option<Result<(), WebServerErrorView>> {
    if !m.contains_key(port) {
        Some(Err(WebServerErrorView::ServerNotFound { port }))
    } else {
        let s = m[port];
        match s.status {
            ServerStatus::Running => Some(Ok(())),
            ServerStatus::Failed => Some(
                Err(
                    WebServerErrorView::IoError {
                        operation: startup_operation(port),
                        source: IoFailureView {
                            kind: IoErrorKind::Other,
                            message: match s.last_error {
                                Some(e) => e,
                                None => "Server failed to start"@,
                            },
                        },
                    },
                ),
            ),
            ServerStatus::Starting => if elapsed > timeout {
                Some(
                    Err(
                        WebServerErrorView::Timeout {
                            operation: "starting server on port "@ + decimal(port as nat),
                            duration_ms: timeout,
                        },
                    ),
                )
            } else {
                None
            },
            other => Some(
                Err(
                    WebServerErrorView::ConfigError {
                        field: "server_status"@,
                        reason: "Server on port "@ + decimal(port as nat)
                            + " has unexpected status: "@ + other.spec_name(),
                    },
                ),
            ),
        }
    }
}

/// The value of an optional outcome.
pub open spec fn outcome_view(r: Option<WebServerResult<()>>) -> Option<Result<(), WebServerErrorView>> {
    match r {
        None => None,
        Some(Ok(())) => Some(Ok(())),
        Some(Err(e)) => Some(Err(e@)),
    }
}

/// Whether the server is started by the manager's start pass at time `now`: it
/// may start, has no accept loop, and, when retrying, its retry is due.
pub open spec fn starts_now(s: WebServerView, now: u64) -> bool {
    &&& s.status.spec_can_start()
    &&& !s.tasks.contains(TaskType::Server)
    &&& s.status == ServerStatus::Retrying ==> s.retry_due(now)
}

pub open spec fn marked_starting(s: WebServerView) -> WebServerView {
    WebServerView { status: ServerStatus::Starting, ..s }
}

/// Whether the server waits for a retry that is due at time `now`.
pub open spec fn ready_to_retry(s: WebServerView, now: u64) -> bool {
    s.status == ServerStatus::Retrying && s.retry_due(now)
}

fn append_all(a: &str, b: &str, c: &str, d: &str) -> (r: String)
    ensures
        r@ == a@ + b@ + c@ + d@,
{
    let mut r = String::from_str(a);
    r.append(b);
    r.append(c);
    r.append(d);
    r
}

impl WebServerManager {
    /// One check while waiting for the server on `port` to start, `elapsed_ms`
    /// after the wait began: `None` to keep waiting, or the outcome of the wait.
    pub fn start_wait_status(&self, port: &u16, elapsed_ms: u64, timeout_ms: u64) -> (r: Option<WebServerResult<()>>)
        ensures
            outcome_view(r) == start_wait_outcome(self@, *port, elapsed_ms, timeout_ms),
            r matches Some(Ok(_)) <==> (self@.contains_key(*port) && self@[*port].status == ServerStatus::Running),
    {
        let port = *port;
        match self.get_server(&port) {
            None => Some(Err(WebServerError::server_not_found(port))),
            Some(server) => {
                let status = server.status();
                match status {
                    ServerStatus::Running => Some(Ok(())),
                    ServerStatus::Failed => {
                        let digits = decimal_text(port as u64);
                        let operation = String::from_str("server startup on port ").concat(digits.as_str());
                        let message = match server.last_error() {
                            Some(e) => String::from_str(e),
                            None => String::from_str("Server failed to start"),
                        };
                        Some(Err(WebServerError::io_error(operation, IoFailure::new(IoErrorKind::Other, message))))
                    },
                    ServerStatus::Starting => {
                        if elapsed_ms > timeout_ms {
                            let digits = decimal_text(port as u64);
                            let operation = String::from_str("starting server on port ").concat(digits.as_str());
                            Some(Err(WebServerError::timeout(operation, timeout_ms)))
                        } else {
                            None
                        }
                    },
                    _ => {
                        let digits = decimal_text(port as u64);
                        let reason = append_all(
                            "Server on port ",
                            digits.as_str(),
                            " has unexpected status: ",
                            status.name(),
                        );
                        Some(Err(WebServerError::config_error(String::from_str("server_status"), reason)))
                    },
                }
            },
        }
    }

    /// One check of the watch over a shutdown with a deadline: the watch ends when
    /// the server is gone, the deadline has passed, or no connection is open.
    pub fn shutdown_monitor_done(server_present: bool, active_connections: usize, elapsed_ms: u64, timeout_ms: u64) -> (r: bool)
        ensures
            r == (!server_present || elapsed_ms >= timeout_ms || active_connections == 0),
    {
        if server_present {
            if elapsed_ms >= timeout_ms {
                true
            } else {
                active_connections == 0
            }
        } else {
            true
        }
    }

    /// The start pass over the registry at time `now_ms`: every server that may
    /// start, has no accept loop and, when retrying, whose retry is due, is marked
    /// `Starting`; their ports are returned, each once, for the caller to start.
    pub fn servers_to_start(&mut self, now_ms: u64) -> (r: Vec<u16>)
        ensures
            forall|p: u16| r@.contains(p) <==> (old(self)@.contains_key(p) && starts_now(old(self)@[p], now_ms)),
            forall|p: u16| r@.contains(p) ==> {
                ||| old(self)@[p].status == ServerStatus::Starting
                ||| (old(self)@[p].status == ServerStatus::Retrying && old(self)@[p].retry_due(now_ms))
            },
            r@.no_duplicates(),
            final(self)@.dom() == old(self)@.dom(),
            forall|p: u16| #[trigger] old(self)@.contains_key(p) ==> final(self)@[p] == (if starts_now(old(self)@[p], now_ms) {
                marked_starting(old(self)@[p])
            } else {
                old(self)@[p]
            }),
    {
        let ports = self.ports();
        let mut result: Vec<u16> = Vec::new();
        let ghost start = self@;
        let mut i: usize = 0;
        while i < ports.len()
            invariant
                start == old(self)@,
                ports@.to_set() == start.dom(),
                ports@.no_duplicates(),
                i <= ports@.len(),
                self@.dom() == start.dom(),
                forall|p: u16| #[trigger] start.contains_key(p) ==> self@[p] == (if ports@.take(i as int).contains(p) && starts_now(start[p], now_ms) {
                    marked_starting(start[p])
                } else {
                    start[p]
                }),
                forall|p: u16| result@.contains(p) <==> (ports@.take(i as int).contains(p) && starts_now(start[p], now_ms)),
                result@.no_duplicates(),
            decreases ports@.len() - i,
        {
            let port = ports[i];
            proof {
                assert(ports@.to_set().contains(port));
                assert(!ports@.take(i as int).contains(port)) by {
                    if ports@.take(i as int).contains(port) {
                        let k = choose|k: int| 0 <= k < i && ports@.take(i as int)[k] == port;
                        assert(ports@[k] == ports@[i as int]);
                    }
                }
                assert(ports@.take(i + 1) =~= ports@.take(i as int).push(port));
            }
            let decide = match self.get_server(&port) {
                Some(server) => {
                    let status = server.status();
                    status.can_start() && !server.has_task(&TaskType::Server) && (status
                        != ServerStatus::Retrying || server.should_retry(now_ms))
                },
                None => false,
            };
            let ghost before = self@;
            let ghost before_result = result@;
            proof {
                assert(start.contains_key(port));
                assert(before[port] == start[port]);
                assert(decide == starts_now(start[port], now_ms));
            }
            if decide {
                if let Some(mut server) = self.detach(&port) {
                    server.set_status(ServerStatus::Starting);
                    self.reattach(server);
                }
                result.push(port);
            }
            proof {
                assert forall|p: u16| #[trigger] start.contains_key(p) implies self@[p] == (if ports@.take(i + 1).contains(p) && starts_now(start[p], now_ms) {
                    marked_starting(start[p])
                } else {
                    start[p]
                }) by {
                    lemma_push_contains(ports@.take(i as int), port, p);
                    if p != port {
                        assert(before.contains_key(p));
                    }
                }
                assert forall|p: u16| result@.contains(p) <==> (ports@.take(i + 1).contains(p) && starts_now(start[p], now_ms)) by {
                    lemma_push_contains(ports@.take(i as int), port, p);
                    if decide {
                        lemma_push_contains(before_result, port, p);
                        assert(result@ == before_result.push(port));
                        if result@.contains(p) && p != port {
                            let k = choose|k: int| 0 <= k < result@.len() && result@[k] == p;
                            assert(before_result[k] == p);
                        }
                        if p == port {
                            assert(result@[result@.len() - 1] == port);
                        }
                    }
                }
                if decide {
                    assert(!before_result.contains(port));
                }
            }
            i = i + 1;
        }
        proof {
            assert(ports@.take(ports@.len() as int) =~= ports@);
            assert forall|p: u16| ports@.contains(p) <==> start.contains_key(p) by {
                assert(ports@.to_set().contains(p) == ports@.contains(p));
            }
        }
        result
    }
}

impl WebServerManager {
    /// The ports of the servers that wait for a retry that is due at time
    /// `now_ms`, each once; when there are any, the start pass should run.
    pub fn servers_ready_to_retry(&self, now_ms: u64) -> (r: Vec<u16>)
        ensures
            forall|p: u16| r@.contains(p) <==> (self@.contains_key(p) && ready_to_retry(self@[p], now_ms)),
            r@.no_duplicates(),
    {
        let ports = self.ports();
        let mut result: Vec<u16> = Vec::new();
        let mut i: usize = 0;
        while i < ports.len()
            invariant
                ports@.to_set() == self@.dom(),
                ports@.no_duplicates(),
                i <= ports@.len(),
                forall|p: u16| result@.contains(p) <==> (ports@.take(i as int).contains(p) && ready_to_retry(self@[p], now_ms)),
                result@.no_duplicates(),
            decreases ports@.len() - i,
        {
            let port = ports[i];
            proof {
                assert(ports@.to_set().contains(port));
                assert(!ports@.take(i as int).contains(port)) by {
                    if ports@.take(i as int).contains(port) {
                        let k = choose|k: int| 0 <= k < i && ports@.take(i as int)[k] == port;
                        assert(ports@[k] == ports@[i as int]);
                    }
                }
                assert(ports@.take(i + 1) =~= ports@.take(i as int).push(port));
            }
            let ready = match self.get_server(&port) {
                Some(server) => server.status() == ServerStatus::Retrying && server.should_retry(now_ms),
                None => false,
            };
            let ghost before_result = result@;
            if ready {
                result.push(port);
            }
            proof {
                assert forall|p: u16| result@.contains(p) <==> (ports@.take(i + 1).contains(p) && ready_to_retry(self@[p], now_ms)) by {
                    lemma_push_contains(ports@.take(i as int), port, p);
                    if ready {
                        lemma_push_contains(before_result, port, p);
                    }
                }
                if ready {
                    assert(!before_result.contains(port));
                }
            }
            i = i + 1;
        }
        proof {
            assert(ports@.take(ports@.len() as int) =~= ports@);
            assert forall|p: u16| ports@.contains(p) <==> self@.contains_key(p) by {
                assert(ports@.to_set().contains(p) == ports@.contains(p));
            }
        }
        result
    }

    /// Drops the finished tasks of every server. Which tasks have finished is
    /// decided by the executor; no task is added and nothing else changes.
    pub fn cleanup_finished_tasks(&mut self)
        ensures
            final(self)@.dom() == old(self)@.dom(),
            forall|p: u16| #[trigger] old(self)@.contains_key(p) ==> {
                &&& final(self)@[p] == (WebServerView { tasks: final(self)@[p].tasks, ..old(self)@[p] })
                &&& final(self)@[p].tasks.subset_of(old(self)@[p].tasks)
            },
    {
        let ports = self.ports();
        let ghost start = self@;
        let mut i: usize = 0;
        while i < ports.len()
            invariant
                start == old(self)@,
                i <= ports@.len(),
                self@.dom() == start.dom(),
                forall|p: u16| #[trigger] start.contains_key(p) ==> {
                    &&& self@[p] == (WebServerView { tasks: self@[p].tasks, ..start[p] })
                    &&& self@[p].tasks.subset_of(start[p].tasks)
                },
            decreases ports@.len() - i,
        {
            let port = ports[i];
            let ghost before = self@;
            if let Some(mut server) = self.detach(&port) {
                server.cleanup_finished_tasks();
                self.reattach(server);
            }
            proof {
                assert forall|p: u16| #[trigger] start.contains_key(p) implies {
                    &&& self@[p] == (WebServerView { tasks: self@[p].tasks, ..start[p] })
                    &&& self@[p].tasks.subset_of(start[p].tasks)
                } by {
                    assert(before.contains_key(p));
                }
            }
            i = i + 1;
        }
    }

    /// Every server with its state and last error, each port once, in no
    /// particular order.
    pub fn server_status_report(&self) -> (r: Vec<(u16, ServerStatus, Option<String>)>)
        ensures
            r@.len() == self@.len(),
            forall|i: int| 0 <= i < r@.len() ==> {
                &&& self@.contains_key(#[trigger] r@[i].0)
                &&& r@[i].1 == self@[r@[i].0].status
                &&& text_of(r@[i].2) == self@[r@[i].0].last_error
            },
            forall|p: u16| self@.contains_key(p) ==> exists|i: int| 0 <= i < r@.len() && #[trigger] r@[i].0 == p,
            forall|i: int, j: int| 0 <= i < r@.len() && 0 <= j < r@.len() && i != j ==> r@[i].0 != r@[j].0,
    {
        let ports = self.ports();
        let mut result: Vec<(u16, ServerStatus, Option<String>)> = Vec::new();
        let mut i: usize = 0;
        while i < ports.len()
            invariant
                ports@.to_set() == self@.dom(),
                ports@.no_duplicates(),
                i <= ports@.len(),
                result@.len() == i,
                forall|k: int| #![trigger result@[k]] 0 <= k < i ==> {
                    &&& result@[k].0 == ports@[k]
                    &&& result@[k].1 == self@[ports@[k]].status
                    &&& text_of(result@[k].2) == self@[ports@[k]].last_error
                },
            decreases ports@.len() - i,
        {
            let port = ports[i];
            proof {
                assert(ports@.to_set().contains(port));
            }
            match self.get_server(&port) {
                Some(server) => {
                    let error = match server.last_error() {
                        Some(e) => Some(String::from_str(e)),
                        None => None,
                    };
                    assert(text_of(error) == self@[port].last_error);
                    let ghost before = result@;
                    result.push((port, server.status(), error));
                    assert forall|k: int| #![trigger result@[k]] 0 <= k < i + 1 implies {
                        &&& result@[k].0 == ports@[k]
                        &&& result@[k].1 == self@[ports@[k]].status
                        &&& text_of(result@[k].2) == self@[ports@[k]].last_error
                    } by {
                        if k < i {
                            assert(result@[k] == before[k]);
                        }
                    }
                },
                None => {},
            }
            i = i + 1;
        }
        proof {
            lemma_ports_cover(ports@, self@.dom());
            assert forall|k: int| 0 <= k < result@.len() implies self@.contains_key(#[trigger] result@[k].0) by {
                assert(ports@.to_set().contains(ports@[k]));
            }
            assert forall|p: u16| self@.contains_key(p) implies exists|k: int| 0 <= k < result@.len() && #[trigger] result@[k].0 == p by {
                assert(ports@.to_set().contains(p));
                let k = choose|k: int| 0 <= k < ports@.len() && ports@[k] == p;
                assert(result@[k].0 == p);
            }
            assert(self@.len() == self@.dom().len());
            ports@.unique_seq_to_set();
        }
        result
    }
}

impl WebServerManager {
    /// The servers that are `Running`, each with the address it binds to, each
    /// port once, in no particular order.
    pub fn running_servers(&self) -> (r: Vec<(u16, IpAddress)>)
        ensures
            forall|i: int| #![trigger r@[i]] 0 <= i < r@.len() ==> {
                &&& self@.contains_key(r@[i].0)
                &&& self@[r@[i].0].status == ServerStatus::Running
                &&& r@[i].1 == self@[r@[i].0].ip
            },
            forall|p: u16| self@.contains_key(p) && self@[p].status == ServerStatus::Running
                ==> exists|i: int| 0 <= i < r@.len() && #[trigger] r@[i].0 == p,
            forall|i: int, j: int| 0 <= i < r@.len() && 0 <= j < r@.len() && i != j ==> r@[i].0 != r@[j].0,
    {
        let ports = self.ports();
        let mut result: Vec<(u16, IpAddress)> = Vec::new();
        let mut i: usize = 0;
        while i < ports.len()
            invariant
                ports@.to_set() == self@.dom(),
                ports@.no_duplicates(),
                i <= ports@.len(),
                forall|k: int| #![trigger result@[k]] 0 <= k < result@.len() ==> {
                    &&& ports@.take(i as int).contains(result@[k].0)
                    &&& self@.contains_key(result@[k].0)
                    &&& self@[result@[k].0].status == ServerStatus::Running
                    &&& result@[k].1 == self@[result@[k].0].ip
                },
                forall|j: int| 0 <= j < i && self@[#[trigger] ports@[j]].status == ServerStatus::Running
                    ==> exists|k: int| 0 <= k < result@.len() && #[trigger] result@[k].0 == ports@[j],
                forall|k1: int, k2: int| 0 <= k1 < result@.len() && 0 <= k2 < result@.len() && k1 != k2
                    ==> result@[k1].0 != result@[k2].0,
            decreases ports@.len() - i,
        {
            let port = ports[i];
            let ghost before = result@;
            proof {
                assert(ports@.to_set().contains(port));
                assert(ports@.take(i + 1) =~= ports@.take(i as int).push(port));
                assert(!ports@.take(i as int).contains(port)) by {
                    if ports@.take(i as int).contains(port) {
                        let j = choose|j: int| 0 <= j < i && ports@.take(i as int)[j] == port;
                        assert(ports@[j] == ports@[i as int]);
                    }
                }
                assert forall|k: int| 0 <= k < before.len() implies ports@.take(i + 1).contains(#[trigger] before[k].0) by {
                    lemma_push_contains(ports@.take(i as int), port, before[k].0);
                }
            }
            match self.get_server(&port) {
                Some(server) => {
                    if server.status() == ServerStatus::Running {
                        result.push((port, server.ip()));
                        proof {
                            lemma_push_contains(ports@.take(i as int), port, port);
                            assert forall|k: int| #![trigger result@[k]] 0 <= k < result@.len() implies {
                                &&& ports@.take(i + 1).contains(result@[k].0)
                                &&& self@.contains_key(result@[k].0)
                                &&& self@[result@[k].0].status == ServerStatus::Running
                                &&& result@[k].1 == self@[result@[k].0].ip
                            } by {
                                if k < before.len() {
                                    assert(result@[k] == before[k]);
                                }
                            }
                            assert forall|j: int| 0 <= j < i + 1 && self@[#[trigger] ports@[j]].status == ServerStatus::Running
                                implies exists|k: int| 0 <= k < result@.len() && #[trigger] result@[k].0 == ports@[j] by {
                                if j < i {
                                    let k = choose|k: int| 0 <= k < before.len() && before[k].0 == ports@[j];
                                    assert(result@[k] == before[k]);
                                } else {
                                    assert(result@[before.len() as int].0 == ports@[j]);
                                }
                            }
                            assert forall|k1: int, k2: int| 0 <= k1 < result@.len() && 0 <= k2 < result@.len() && k1 != k2
                                implies result@[k1].0 != result@[k2].0 by {
                                if k1 < before.len() && k2 < before.len() {
                                    assert(result@[k1] == before[k1] && result@[k2] == before[k2]);
                                } else if k1 < before.len() {
                                    assert(result@[k1] == before[k1]);
                                    assert(ports@.take(i as int).contains(before[k1].0));
                                } else if k2 < before.len() {
                                    assert(result@[k2] == before[k2]);
                                    assert(ports@.take(i as int).contains(before[k2].0));
                                }
                            }
                        }
                    }
                },
                None => {},
            }
            i = i + 1;
        }
        proof {
            assert forall|p: u16| self@.contains_key(p) && self@[p].status == ServerStatus::Running
                implies exists|k: int| 0 <= k < result@.len() && #[trigger] result@[k].0 == p by {
                assert(ports@.to_set().contains(p));
                let j = choose|j: int| 0 <= j < ports@.len() && ports@[j] == p;
                assert(self@[ports@[j]].status == ServerStatus::Running);
            }
        }
        result
    }

    /// Every server, each port once, in no particular order.
    pub fn iter(&self) -> (r: Vec<(u16, &WebServer)>)
        ensures
            r@.len() == self@.len(),
            forall|i: int| #![trigger r@[i]] 0 <= i < r@.len() ==> self@.contains_key(r@[i].0) && r@[i].1@ == self@[r@[i].0],
            forall|p: u16| self@.contains_key(p) ==> exists|i: int| 0 <= i < r@.len() && #[trigger] r@[i].0 == p,
            forall|i: int, j: int| 0 <= i < r@.len() && 0 <= j < r@.len() && i != j ==> r@[i].0 != r@[j].0,
    {
        let ports = self.ports();
        let mut result: Vec<(u16, &WebServer)> = Vec::new();
        let mut i: usize = 0;
        while i < ports.len()
            invariant
                ports@.to_set() == self@.dom(),
                ports@.no_duplicates(),
                i <= ports@.len(),
                result@.len() == i,
                forall|k: int| #![trigger result@[k]] 0 <= k < i ==> result@[k].0 == ports@[k] && result@[k].1@ == self@[ports@[k]],
            decreases ports@.len() - i,
        {
            let port = ports[i];
            proof {
                assert(ports@.to_set().contains(port));
            }
            match self.get_server(&port) {
                Some(server) => {
                    let ghost before = result@;
                    result.push((port, server));
                    assert forall|k: int| #![trigger result@[k]] 0 <= k < i + 1 implies result@[k].0 == ports@[k] && result@[k].1@ == self@[ports@[k]] by {
                        if k < i {
                            assert(result@[k] == before[k]);
                        }
                    }
                },
                None => {},
            }
            i = i + 1;
        }
        proof {
            assert forall|k: int| #![trigger result@[k]] 0 <= k < result@.len() implies self@.contains_key(result@[k].0) && result@[k].1@ == self@[result@[k].0] by {
                assert(ports@.to_set().contains(ports@[k]));
            }
            assert forall|p: u16| self@.contains_key(p) implies exists|k: int| 0 <= k < result@.len() && #[trigger] result@[k].0 == p by {
                assert(ports@.to_set().contains(p));
                let k = choose|k: int| 0 <= k < ports@.len() && ports@[k] == p;
                assert(result@[k].0 == p);
            }
            assert(self@.len() == self@.dom().len());
            ports@.unique_seq_to_set();
        }
        result
    }

    /// For every server: whether its shutdown was requested, and its number of
    /// open connections (read from counters that connection tasks change concurrently).
    pub fn shutdown_status(&self) -> (r: HashMap<u16, (bool, usize)>)
        ensures
            r@.dom() == self@.dom(),
            forall|p: u16| #[trigger] self@.contains_key(p) ==> r@[p].0 == self@[p].status.spec_shutdown_requested(),
    {
        let ports = self.ports();
        let mut result: HashMap<u16, (bool, usize)> = HashMap::new();
        let mut i: usize = 0;
        while i < ports.len()
            invariant
                ports@.to_set() == self@.dom(),
                i <= ports@.len(),
                forall|p: u16| result@.contains_key(p) <==> ports@.take(i as int).contains(p),
                forall|p: u16| #[trigger] result@.contains_key(p) ==> self@.contains_key(p) && result@[p].0 == self@[p].status.spec_shutdown_requested(),
            decreases ports@.len() - i,
        {
            let port = ports[i];
            proof {
                assert(ports@.to_set().contains(port));
                assert(ports@.take(i + 1) =~= ports@.take(i as int).push(port));
            }
            let ghost before = result@;
            match self.get_server(&port) {
                Some(server) => {
                    result.insert(port, (server.shutdown_requested(), server.count_active_connections()));
                },
                None => {},
            }
            proof {
                assert forall|p: u16| result@.contains_key(p) <==> ports@.take(i + 1).contains(p) by {
                    lemma_push_contains(ports@.take(i as int), port, p);
                }
                assert forall|p: u16| #[trigger] result@.contains_key(p) implies self@.contains_key(p) && result@[p].0 == self@[p].status.spec_shutdown_requested() by {
                    if p != port {
                        assert(before.contains_key(p));
                    }
                }
            }
            i = i + 1;
        }
        proof {
            assert(ports@.take(ports@.len() as int) =~= ports@);
            lemma_ports_cover(ports@, self@.dom());
            assert(result@.dom() =~= self@.dom());
        }
        result
    }

    /// Gives the server on `port` the router `router`: an existing server keeps its
    /// state; otherwise a new server on `ip` is registered with it, `bind_error`
    /// being the text of the failed bind test on that port, if it failed.
    pub fn install_router(&mut self, ip: IpAddress, port: u16, router: axum::Router, bind_error: Option<String>, now_ms: u64)
        requires
            !old(self)@.contains_key(port) && bind_error is Some ==> now_ms + crate::server::RETRY_DELAY_MS <= u64::MAX,
        ensures
            final(self)@ == (if old(self)@.contains_key(port) {
                old(self)@.insert(port, WebServerView { router, ..old(self)@[port] })
            } else {
                old(self)@.insert(port, admitted(fresh_server(ip, port, router), text_of(bind_error), now_ms))
            }),
    {
        if !self.has_server(&port) {
            let _ = self.add_server(WebServer::new(ip, port, router), bind_error, now_ms);
        } else {
            self.set_router(&port, router);
        }
    }

    /// Makes sure a server is registered on `port`: when there is none, a new one
    /// on `ip` with an empty router is registered, `bind_error` being the text of
    /// the failed bind test on that port, if it failed.
    pub fn ensure_server(&mut self, ip: IpAddress, port: u16, bind_error: Option<String>, now_ms: u64)
        requires
            !old(self)@.contains_key(port) && bind_error is Some ==> now_ms + crate::server::RETRY_DELAY_MS <= u64::MAX,
        ensures
            final(self)@ == (if old(self)@.contains_key(port) {
                old(self)@
            } else {
                old(self)@.insert(
                    port,
                    admitted(fresh_server(ip, port, final(self)@[port].router), text_of(bind_error), now_ms),
                )
            }),
    {
        if !self.has_server(&port) {
            let _ = self.add_server(WebServer::new(ip, port, new_router()), bind_error, now_ms);
        }
    }

    /// A registry holding the server that a one-port configuration describes,
    /// with an empty router; `bind_error` is the text of the failed bind test on
    /// its port, if it failed.
    pub fn from_config(config: crate::server::WebServerConfig, bind_error: Option<String>, now_ms: u64) -> (r: WebServerManager)
        requires
            bind_error is Some ==> now_ms + crate::server::RETRY_DELAY_MS <= u64::MAX,
        ensures
            r@ == Map::<u16, WebServerView>::empty().insert(
                config.port,
                admitted(fresh_server(config.ip, config.port, r@[config.port].router), text_of(bind_error), now_ms),
            ),
    {
        let mut manager = WebServerManager::new();
        manager.ensure_server(config.ip, config.port, bind_error, now_ms);
        manager
    }
}

impl Default for WebServerManager {
    fn default() -> (r: Self)
        ensures
            r@ == Map::<u16, WebServerView>::empty(),
    {
        WebServerManager::new()
    }
}


/// Each key list covers its set.
proof fn lemma_ports_cover(ports: Seq<u16>, dom: Set<u16>)
    requires
        ports.to_set() == dom,
    ensures
        forall|p: u16| dom.contains(p) <==> ports.contains(p),
{
    assert forall|p: u16| dom.contains(p) <==> ports.contains(p) by {
        assert(ports.to_set().contains(p) == ports.contains(p));
    }
}

} // verus!
