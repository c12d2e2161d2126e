use vstd::prelude::*;
use std::collections::HashMap;
use std::sync::Arc;
use std::sync::atomic::AtomicUsize;

use crate::text::lemma_push_contains;

verus! {

broadcast use vstd::std_specs::hash::group_hash_axioms;

/// The router of axum, carried through the library as an opaque value.
#[verifier::external_type_specification]
#[verifier::external_body]
#[verifier::reject_recursive_types(S)]
pub struct ExRouter<S>(axum::Router<S>);

/// A spawned async task of the executor (`async_task::Task`, re-exported by
/// `bevy_defer`); dropping it cancels the task.
#[verifier::external_type_specification]
#[verifier::external_body]
#[verifier::reject_recursive_types(T)]
#[verifier::reject_recursive_types(M)]
pub struct ExTask<T, M>(bevy_defer::Task<T, M>);

/// Makes an empty router with `axum::Router::new`. Nothing is claimed of the value.
#[verifier::external_body]
pub(crate) fn new_router() -> axum::Router {
    axum::Router::new()
}

/// Copies a router with `<axum::Router as Clone>::clone`. What is claimed: the
/// copy is the same router, since the clone shares the router's contents
/// through `Arc::clone` (a later change to either copies them first).
#[verifier::external_body]
pub(crate) fn clone_router(router: &axum::Router) -> (r: axum::Router)
    ensures
        r == *router,
{
    router.clone()
}

/// Asks `async_task::Task::is_finished` whether a task has completed or was
/// cancelled. The answer depends on the executor, so nothing is claimed of it.
#[verifier::external_body]
fn task_is_finished(task: &bevy_defer::Task<()>) -> bool {
    task.is_finished()
}

/// Shares an atomic counter through `<Arc<AtomicUsize> as Clone>::clone`. What is
/// claimed: the result points at the same counter.
#[verifier::external_body]
fn share_counter(counter: &Arc<AtomicUsize>) -> (r: Arc<AtomicUsize>)
    ensures
        r == *counter,
{
    counter.clone()
}

/// The kinds of task a server keeps: its accept loop, and one task per connection.
#[derive(Clone, Copy, Debug, PartialEq, Eq, Hash, Structural)]
pub enum TaskType {
    Server,
    Connection(usize),
}

/// The tasks of one server, each under its [`TaskType`]; a task is cancelled
/// when it leaves the store.
pub struct TaskStore {
    server: Option<bevy_defer::Task<()>>,
    connections: HashMap<usize, bevy_defer::Task<()>>,
}

impl TaskStore {
    /// The task types that hold a task.
    pub closed spec fn view(&self) -> Set<TaskType> {
        Set::new(
            |t: TaskType|
                match t {
                    TaskType::Server => self.server is Some,
                    TaskType::Connection(id) => self.connections@.contains_key(id),
                },
        )
    }

    pub fn new() -> (r: TaskStore)
        ensures
            r.view() == Set::<TaskType>::empty(),
    {
        let r = TaskStore { server: None, connections: HashMap::new() };
        assert(r.view() =~= Set::<TaskType>::empty());
        r
    }

    pub fn contains_key(&self, task_type: &TaskType) -> (r: bool)
        ensures
            r == self.view().contains(*task_type),
    {
        match task_type {
            TaskType::Server => self.server.is_some(),
            TaskType::Connection(id) => self.connections.contains_key(id),
        }
    }

    /// Stores `task` under `task_type`; a task already stored there is cancelled.
    pub fn insert(&mut self, task_type: TaskType, task: bevy_defer::Task<()>)
        ensures
            final(self).view() == old(self).view().insert(task_type),
    {
        match task_type {
            TaskType::Server => {
                self.server = Some(task);
            },
            TaskType::Connection(id) => {
                self.connections.insert(id, task);
            },
        }
        assert(self.view() =~= old(self).view().insert(task_type));
    }

    /// Cancels and drops the task stored under `task_type`, if any.
    pub fn remove(&mut self, task_type: &TaskType)
        ensures
            final(self).view() == old(self).view().remove(*task_type),
    {
        match task_type {
            TaskType::Server => {
                self.server = None;
            },
            TaskType::Connection(id) => {
                self.connections.remove(id);
            },
        }
        assert(self.view() =~= old(self).view().remove(*task_type));
    }

    /// Cancels and drops every task.
    pub fn clear(&mut self)
        ensures
            final(self).view() == Set::<TaskType>::empty(),
    {
        self.server = None;
        self.connections.clear();
        assert(self.view() =~= Set::<TaskType>::empty());
    }

    /// Cancels and drops the tasks stored under each of the types in `finished`.
    pub fn remove_tasks(&mut self, finished: &Vec<TaskType>)
        ensures
            final(self).view() == old(self).view().difference(finished@.to_set()),
    {
        let mut i: usize = 0;
        while i < finished.len()
            invariant
                i <= finished@.len(),
                self.view() == old(self).view().difference(finished@.take(i as int).to_set()),
            decreases finished@.len() - i,
        {
            self.remove(&finished[i]);
            proof {
                let done = finished@.take(i as int);
                let x = finished@[i as int];
                assert(finished@.take(i + 1) =~= done.push(x));
                assert(self.view() =~= old(self).view().difference(finished@.take(i + 1).to_set())) by {
                    assert forall|t: TaskType| #[trigger] self.view().contains(t) <==> old(self).view().difference(
                        finished@.take(i + 1).to_set(),
                    ).contains(t) by {
                        lemma_push_contains(done, x, t);
                    }
                }
            }
            i = i + 1;
        }
        assert(finished@.take(finished@.len() as int) =~= finished@);
    }

    /// Drops the tasks that have finished. Which tasks have finished is decided by
    /// the executor: each stored task is asked, and those that answer that they
    /// have finished are removed with [`TaskStore::remove_tasks`]. What is stated
    /// is that no task is added.
    pub fn cleanup_finished_tasks(&mut self)
        ensures
            final(self).view().subset_of(old(self).view()),
    {
        let mut finished: Vec<TaskType> = Vec::new();
        let finished_server = match &self.server {
            Some(task) => task_is_finished(task),
            None => false,
        };
        if finished_server {
            finished.push(TaskType::Server);
        }
        for id in self.connections.keys() {
            let done = match self.connections.get(id) {
                Some(task) => task_is_finished(task),
                None => false,
            };
            if done {
                finished.push(TaskType::Connection(*id));
            }
        }
        self.remove_tasks(&finished);
    }
}
/// Counts the connections a server has accepted and those still open. The
/// counters are shared with the connection tasks, which change them concurrently.
pub struct ConnectionTracker {
    total: Arc<AtomicUsize>,
    active: Arc<AtomicUsize>,
}

/// Marks one open connection; `release` ends it.
pub struct ConnectionGuard {
    active: Arc<AtomicUsize>,
}

impl ConnectionTracker {
    /// The counter of open connections, which each [`ConnectionGuard`] counts down.
    pub closed spec fn active_counter(&self) -> Arc<AtomicUsize> {
        self.active
    }

    pub fn new() -> ConnectionTracker {
        ConnectionTracker {
            total: Arc::new(AtomicUsize::new(0)),
            active: Arc::new(AtomicUsize::new(0)),
        }
    }

    /// The number of connections accepted so far (the next connection's id).
    pub fn total_connections(&self) -> usize {
        self.total.load(std::sync::atomic::Ordering::SeqCst)
    }

    /// The number of connections still open.
    pub fn active_connections(&self) -> usize {
        self.active.load(std::sync::atomic::Ordering::SeqCst)
    }

    /// Counts a new connection as accepted and open; the guard counts it down
    /// again on the tracker's own counter of open connections.
    pub fn new_connection(&self) -> (r: ConnectionGuard)
        ensures
            r.released_counter() == self.active_counter(),
    {
        self.total.fetch_add(1, std::sync::atomic::Ordering::SeqCst);
        self.active.fetch_add(1, std::sync::atomic::Ordering::SeqCst);
        ConnectionGuard { active: share_counter(&self.active) }
    }
}

impl ConnectionGuard {
    /// The counter of open connections that `release` counts down.
    pub closed spec fn released_counter(&self) -> Arc<AtomicUsize> {
        self.active
    }

    /// Counts the connection as closed; the guard is used up.
    pub fn release(self) {
        self.active.fetch_sub(1, std::sync::atomic::Ordering::SeqCst);
    }
}

} // verus!
