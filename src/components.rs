use vstd::prelude::*;
use crate::document::{contains_string, strs_view};

verus! {

/// The life of the background worker that owns the component cache.
#[derive(Debug, Clone, Copy, PartialEq, Eq, Structural)]
pub enum WorkerState {
    /// Accepts scan requests.
    Running,
    /// Accepts no new request and drains the ones queued.
    Closing,
    /// Joined: the cache is final.
    Stopped,
}

/// The model of the component database: the worker's state, its queue of
/// scan requests, and the cache of scanned components with their metadata.
pub struct DatabaseModel {
    pub state: WorkerState,
    pub inbox: Seq<Seq<char>>,
    pub names: Seq<Seq<char>>,
    pub metadata: Seq<Seq<char>>,
}

/// An operation on the component database.
pub enum DatabaseOp {
    Enqueue(Seq<char>),
    Close,
    Take,
    Record(Seq<char>, Option<Seq<char>>),
    Join,
}

/// The database after `op`.
pub open spec fn db_step(m: DatabaseModel, op: DatabaseOp) -> DatabaseModel {
    match op {
        DatabaseOp::Enqueue(c) => if m.state == WorkerState::Running {
            DatabaseModel { inbox: m.inbox.push(c), ..m }
        } else {
            m
        },
        DatabaseOp::Close => if m.state == WorkerState::Running {
            DatabaseModel { state: WorkerState::Closing, ..m }
        } else {
            m
        },
        DatabaseOp::Take => if m.state != WorkerState::Stopped && m.inbox.len() > 0 {
            DatabaseModel { inbox: m.inbox.drop_first(), ..m }
        } else {
            m
        },
        DatabaseOp::Record(c, meta) => if m.state != WorkerState::Stopped && meta is Some && !m.names.contains(c) {
            DatabaseModel { names: m.names.push(c), metadata: m.metadata.push(meta->Some_0), ..m }
        } else {
            m
        },
        DatabaseOp::Join => if m.state == WorkerState::Closing && m.inbox.len() == 0 {
            DatabaseModel { state: WorkerState::Stopped, ..m }
        } else {
            m
        },
    }
}

/// The database after the operations of `ops`, first to last.
pub open spec fn db_run(m: DatabaseModel, ops: Seq<DatabaseOp>) -> DatabaseModel
    decreases ops.len(),
{
    if ops.len() == 0 {
        m
    } else {
        db_step(db_run(m, ops.drop_last()), ops.last())
    }
}

/// Once the worker is joined, no operation changes the cache or restarts the
/// worker, whatever follows.
pub proof fn lemma_stopped_cache_is_final(m: DatabaseModel, ops: Seq<DatabaseOp>)
    requires
        m.state == WorkerState::Stopped,
    ensures
        db_run(m, ops).state == WorkerState::Stopped,
        db_run(m, ops).names == m.names,
        db_run(m, ops).metadata == m.metadata,
    decreases ops.len(),
{
    if ops.len() > 0 {
        lemma_stopped_cache_is_final(m, ops.drop_last());
    }
}

/// A stopped worker has no request left in its queue.
pub open spec fn db_inv(m: DatabaseModel) -> bool {
    m.state == WorkerState::Stopped ==> m.inbox.len() == 0
}

/// A join stops the worker only after a close and once every queued request
/// has been taken; afterwards no request is ever queued again. So each
/// request enqueued before the join was either refused at once or taken by
/// the worker before the join returned.
pub proof fn lemma_join_drains_inbox(m: DatabaseModel, ops: Seq<DatabaseOp>)
    ensures
        m.state != WorkerState::Stopped && db_step(m, DatabaseOp::Join).state == WorkerState::Stopped
            ==> m.state == WorkerState::Closing && m.inbox.len() == 0,
        db_inv(m) ==> db_inv(db_run(m, ops)),
    decreases ops.len(),
{
    if ops.len() > 0 {
        lemma_join_drains_inbox(m, ops.drop_last());
    }
}

/// The component database: a cache of component metadata filled by a
/// background worker from a queue of scan requests. The worker alone changes
/// the cache; others enqueue requests or read snapshots.
pub struct LatexComponentDatabaseManager {
    state: WorkerState,
    inbox: Vec<String>,
    names: Vec<String>,
    metadata: Vec<String>,
}

impl View for LatexComponentDatabaseManager {
    type V = DatabaseModel;

    closed spec fn view(&self) -> DatabaseModel {
        DatabaseModel {
            state: self.state,
            inbox: strs_view(self.inbox@),
            names: strs_view(self.names@),
            metadata: strs_view(self.metadata@),
        }
    }
}

impl LatexComponentDatabaseManager {
    /// Each component has its metadata.
    pub open spec fn wf(&self) -> bool {
        self@.names.len() == self@.metadata.len()
    }

    /// A running database over the cache read from disk, or an empty one
    /// where the file was missing or corrupt.
    pub fn load_or_create(persisted: Option<(Vec<String>, Vec<String>)>) -> (r: LatexComponentDatabaseManager)
        ensures
            r.wf(),
            r@.state == WorkerState::Running,
            r@.inbox == Seq::<Seq<char>>::empty(),
            match persisted {
                Some((n, m)) if n.len() == m.len() => r@.names == strs_view(n@) && r@.metadata == strs_view(m@),
                _ => r@.names == Seq::<Seq<char>>::empty() && r@.metadata == Seq::<Seq<char>>::empty(),
            },
    {
        let (names, metadata) = match persisted {
            Some((n, m)) => if n.len() == m.len() {
                (n, m)
            } else {
                (Vec::new(), Vec::new())
            },
            None => (Vec::new(), Vec::new()),
        };
        let r = LatexComponentDatabaseManager { state: WorkerState::Running, inbox: Vec::new(), names, metadata };
        assert(r@.inbox =~= Seq::<Seq<char>>::empty());
        assert(persisted is None ==> r@.names =~= Seq::<Seq<char>>::empty());
        assert(persisted is None ==> r@.metadata =~= Seq::<Seq<char>>::empty());
        r
    }

    /// The state of the worker.
    pub fn state(&self) -> (r: WorkerState)
        ensures
            r == self@.state,
    {
        self.state
    }

    /// Queues a scan of `component`; refused, and dropped, once the database
    /// is closing. Says whether it was queued.
    pub fn enqueue(&mut self, component: &String) -> (r: bool)
        ensures
            final(self)@ == db_step(old(self)@, DatabaseOp::Enqueue(component@)),
            r == (old(self)@.state == WorkerState::Running),
    {
        if self.state == WorkerState::Running {
            let ghost before = self.inbox@;
            self.inbox.push(component.clone());
            assert(strs_view(self.inbox@) =~= strs_view(before).push(component@));
            true
        } else {
            false
        }
    }

    /// Tells the worker to accept no new request and to drain its queue.
    pub fn close(&mut self)
        ensures
            final(self)@ == db_step(old(self)@, DatabaseOp::Close),
    {
        if self.state == WorkerState::Running {
            self.state = WorkerState::Closing;
        }
    }

    /// The worker takes the oldest queued request.
    pub fn take_request(&mut self) -> (r: Option<String>)
        ensures
            final(self)@ == db_step(old(self)@, DatabaseOp::Take),
            match r {
                Some(c) => old(self)@.state != WorkerState::Stopped && old(self)@.inbox.len() > 0
                    && c@ == old(self)@.inbox[0],
                None => old(self)@.state == WorkerState::Stopped || old(self)@.inbox.len() == 0,
            },
    {
        if self.state != WorkerState::Stopped && self.inbox.len() > 0 {
            let ghost before = self.inbox@;
            let c = self.inbox.remove(0);
            assert(strs_view(self.inbox@) =~= strs_view(before).drop_first());
            Some(c)
        } else {
            None
        }
    }

    /// Whether the cache holds `component`.
    pub fn is_known(&self, component: &String) -> (r: bool)
        ensures
            r == self@.names.contains(component@),
    {
        contains_string(&self.names, component)
    }

    /// The worker stores what a scan of `component` found; a component that
    /// is known already, or that the scan found nothing for, is skipped.
    pub fn record(&mut self, component: &String, found: Option<String>) -> (r: bool)
        requires
            old(self).wf(),
        ensures
            final(self).wf(),
            final(self)@ == db_step(old(self)@, DatabaseOp::Record(component@, match found {
                Some(m) => Some(m@),
                None => None,
            })),
            r == (final(self)@ != old(self)@),
    {
        if self.state == WorkerState::Stopped {
            return false;
        }
        match found {
            Some(meta) => {
                if contains_string(&self.names, component) {
                    false
                } else {
                    let ghost (n0, m0) = (self.names@, self.metadata@);
                    let ghost mv = meta@;
                    self.names.push(component.clone());
                    self.metadata.push(meta);
                    assert(strs_view(self.names@) =~= strs_view(n0).push(component@));
                    assert(strs_view(self.metadata@) =~= strs_view(m0).push(mv));
                    assert(self@.names.len() != old(self)@.names.len());
                    true
                }
            },
            None => false,
        }
    }

    /// Completes the shutdown once the worker was told to close and has
    /// drained its queue; says whether the worker is now stopped.
    pub fn join(&mut self) -> (r: bool)
        ensures
            final(self)@ == db_step(old(self)@, DatabaseOp::Join),
            r == (final(self)@.state == WorkerState::Stopped),
    {
        if self.state == WorkerState::Closing && self.inbox.len() == 0 {
            self.state = WorkerState::Stopped;
        }
        self.state == WorkerState::Stopped
    }

    /// A snapshot of the cache: the component names and, at the same
    /// positions, their metadata.
    pub fn get(&self) -> (r: (Vec<String>, Vec<String>))
        ensures
            strs_view(r.0@) == self@.names,
            strs_view(r.1@) == self@.metadata,
    {
        (crate::document::clone_strings(&self.names), crate::document::clone_strings(&self.metadata))
    }
}

} // verus!
