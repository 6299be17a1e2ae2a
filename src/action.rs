use vstd::prelude::*;

verus! {

/// A deferred unit of follow-up work. It carries identifiers and paths only,
/// so it stays valid while it waits in the queue.
#[derive(Debug, PartialEq, Eq)]
pub enum Action {
    RegisterCapabilities,
    LoadResolver,
    LoadComponentDatabase,
    DetectRoot(String),
    DetectChildren,
    PublishDiagnostics,
    RunLinter(String),
    ParseLog { tex_uri: String, log_path: String },
    Build(String),
    ScanComponents,
}

/// The pending actions, in push order.
pub struct ActionManager {
    actions: Vec<Action>,
}

impl View for ActionManager {
    type V = Seq<Action>;

    closed spec fn view(&self) -> Seq<Action> {
        self.actions@
    }
}

impl ActionManager {
    /// An empty queue.
    pub fn new() -> (r: ActionManager)
        ensures
            r@ == Seq::<Action>::empty(),
    {
        ActionManager { actions: Vec::new() }
    }

    /// Appends `action` behind the pending ones.
    pub fn push(&mut self, action: Action)
        ensures
            final(self)@ == old(self)@.push(action),
    {
        self.actions.push(action);
    }

    /// Takes every pending action, in push order, and leaves the queue empty.
    pub fn take(&mut self) -> (r: Vec<Action>)
        ensures
            r@ == old(self)@,
            final(self)@ == Seq::<Action>::empty(),
    {
        let mut taken: Vec<Action> = Vec::new();
        std::mem::swap(&mut taken, &mut self.actions);
        taken
    }

    /// The number of pending actions.
    pub fn len(&self) -> (r: usize)
        ensures
            r == self@.len(),
    {
        self.actions.len()
    }
}

/// One operation on the queue.
pub enum QueueOp {
    Push(Action),
    Take,
}

/// The actions pushed by `ops`, in order.
pub open spec fn pushed(ops: Seq<QueueOp>) -> Seq<Action>
    decreases ops.len(),
{
    if ops.len() == 0 {
        Seq::empty()
    } else {
        match ops.last() {
            QueueOp::Push(a) => pushed(ops.drop_last()).push(a),
            QueueOp::Take => pushed(ops.drop_last()),
        }
    }
}

/// The pending actions after `ops`, starting from an empty queue.
pub open spec fn pending_after(ops: Seq<QueueOp>) -> Seq<Action>
    decreases ops.len(),
{
    if ops.len() == 0 {
        Seq::empty()
    } else {
        match ops.last() {
            QueueOp::Push(a) => pending_after(ops.drop_last()).push(a),
            QueueOp::Take => Seq::empty(),
        }
    }
}

/// Everything the takes of `ops` handed out, one drain after the other.
pub open spec fn drained(ops: Seq<QueueOp>) -> Seq<Action>
    decreases ops.len(),
{
    if ops.len() == 0 {
        Seq::empty()
    } else {
        match ops.last() {
            QueueOp::Push(_) => drained(ops.drop_last()),
            QueueOp::Take => drained(ops.drop_last()) + pending_after(ops.drop_last()),
        }
    }
}

/// However pushes and drains interleave, each pushed action is handed out by
/// exactly one drain or is still pending, and the order of pushing is kept:
/// no action is lost and none is handed out twice.
pub proof fn lemma_queue_conserves_actions(ops: Seq<QueueOp>)
    ensures
        drained(ops) + pending_after(ops) == pushed(ops),
    decreases ops.len(),
{
    if ops.len() > 0 {
        let prefix = ops.drop_last();
        lemma_queue_conserves_actions(prefix);
        match ops.last() {
            QueueOp::Push(a) => {
                assert(drained(prefix) + pending_after(prefix).push(a) =~= (drained(prefix)
                    + pending_after(prefix)).push(a));
            },
            QueueOp::Take => {
                assert(drained(ops) + pending_after(ops) =~= drained(prefix) + pending_after(prefix));
            },
        }
    }
}

} // verus!
