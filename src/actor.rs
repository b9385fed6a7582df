use vstd::prelude::*;
use crate::model::{answers, applied, replay, Command, Outcome, Table};
use crate::store::AliasStore;

verus! {

/// The connection actor refuses new work once it has been closed.
#[derive(Debug, Clone, Copy, PartialEq, Eq)]
pub struct ActorUnavailable;

/// The queue bound used when nothing else is configured.
pub const DEFAULT_QUEUE_BOUND: usize = 1024;

/// Why a command was not enqueued.
#[derive(Debug, Clone, Copy, PartialEq, Eq)]
pub enum SubmitError {
    /// The actor has been closed.
    Closed,
    /// The queue already holds as many commands as its bound allows; the
    /// submitter may retry once the actor has caught up.
    QueueFull,
}

/// The sole owner of the alias store. Commands wait in a queue and run one at
/// a time, in the order they were submitted.
pub struct ConnectionActor {
    store: AliasStore,
    queue: Vec<Command>,
    bound: usize,
    open: bool,
}

proof fn lemma_replay_step(t: Table, cs: Seq<Command>)
    requires
        cs.len() > 0,
    ensures
        replay(t, cs) == replay(applied(t, cs[0]), cs.drop_first()),
{
}

impl ConnectionActor {
    /// The table as it stands, before the queued commands have run.
    pub closed spec fn table(&self) -> Table {
        self.store@
    }

    /// The submitted commands not yet run, oldest first.
    pub closed spec fn pending(&self) -> Seq<Command> {
        self.queue@
    }

    pub closed spec fn is_open(&self) -> bool {
        self.open
    }

    /// The most commands that may wait at once.
    pub closed spec fn bound(&self) -> nat {
        self.bound as nat
    }

    pub closed spec fn wf(&self) -> bool {
        self.store.wf()
    }

    /// Takes ownership of `store`; the actor starts open with an empty queue
    /// that holds at most `bound` commands.
    pub fn new(store: AliasStore, bound: usize) -> (a: Self)
        requires
            store.wf(),
            bound > 0,
        ensures
            a.wf(),
            a.table() == store@,
            a.pending() == Seq::<Command>::empty(),
            a.bound() == bound,
            a.is_open(),
    {
        ConnectionActor { store, queue: Vec::new(), bound, open: true }
    }

    /// Enqueues `c` behind the commands already waiting, unless the actor is
    /// closed or the queue is full.
    pub fn submit(&mut self, c: Command) -> (r: Result<(), SubmitError>)
        requires
            old(self).wf(),
        ensures
            final(self).wf(),
            final(self).table() == old(self).table(),
            final(self).is_open() == old(self).is_open(),
            final(self).bound() == old(self).bound(),
            !old(self).is_open() ==> r == Err::<(), SubmitError>(SubmitError::Closed),
            old(self).is_open() && old(self).pending().len() >= old(self).bound()
                ==> r == Err::<(), SubmitError>(SubmitError::QueueFull),
            old(self).is_open() && old(self).pending().len() < old(self).bound() ==> r is Ok,
            r is Ok ==> final(self).pending() == old(self).pending().push(c),
            r is Err ==> final(self).pending() == old(self).pending(),
    {
        if !self.open {
            Err(SubmitError::Closed)
        } else if self.queue.len() >= self.bound {
            Err(SubmitError::QueueFull)
        } else {
            self.queue.push(c);
            Ok(())
        }
    }

    /// The number of commands waiting.
    pub fn pending_len(&self) -> (n: usize)
        ensures
            n == self.pending().len(),
    {
        self.queue.len()
    }

    /// Runs the oldest waiting command and hands back its outcome.
    pub fn run_next(&mut self) -> (r: Option<Outcome>)
        requires
            old(self).wf(),
        ensures
            final(self).wf(),
            final(self).is_open() == old(self).is_open(),
            final(self).bound() == old(self).bound(),
            r is None <==> old(self).pending().len() == 0,
            r is None ==> final(self).table() == old(self).table() && final(self).pending() == old(self).pending(),
            r is Some ==> final(self).table() == applied(old(self).table(), old(self).pending()[0])
                && answers(old(self).table(), old(self).pending()[0], r.unwrap())
                && final(self).pending() == old(self).pending().drop_first(),
    {
        if self.queue.len() == 0 {
            return None;
        }
        let c = self.queue.remove(0);
        assert(self.queue@ =~= old(self).queue@.drop_first());
        Some(self.store.execute(c))
    }

    /// Runs every waiting command, oldest first.
    pub fn run_all(&mut self)
        requires
            old(self).wf(),
        ensures
            final(self).wf(),
            final(self).is_open() == old(self).is_open(),
            final(self).bound() == old(self).bound(),
            final(self).pending() == Seq::<Command>::empty(),
            final(self).table() == replay(old(self).table(), old(self).pending()),
    {
        while self.queue.len() > 0
            invariant
                self.wf(),
                self.open == old(self).open,
                self.bound == old(self).bound,
                replay(self.table(), self.pending()) == replay(old(self).table(), old(self).pending()),
            decreases self.queue@.len(),
        {
            proof {
                lemma_replay_step(self.table(), self.pending());
            }
            let _ = self.run_next();
        }
        assert(self.queue@ =~= Seq::<Command>::empty());
    }

    /// Submits `c` and waits for its completion: the commands already
    /// waiting run first, then `c`.
    pub fn call(&mut self, c: Command) -> (r: Result<Outcome, ActorUnavailable>)
        requires
            old(self).wf(),
        ensures
            final(self).wf(),
            final(self).is_open() == old(self).is_open(),
            final(self).bound() == old(self).bound(),
            r is Ok <==> old(self).is_open(),
            r is Ok ==> final(self).pending() == Seq::<Command>::empty()
                && final(self).table() == applied(replay(old(self).table(), old(self).pending()), c)
                && answers(replay(old(self).table(), old(self).pending()), c, r->Ok_0),
            r is Err ==> final(self).pending() == old(self).pending()
                && final(self).table() == old(self).table(),
    {
        if !self.open {
            return Err(ActorUnavailable);
        }
        self.run_all();
        Ok(self.store.execute(c))
    }

    /// Stops accepting new commands; those already waiting still run.
    pub fn close(&mut self)
        ensures
            final(self).wf() == old(self).wf(),
            !final(self).is_open(),
            final(self).bound() == old(self).bound(),
            final(self).table() == old(self).table(),
            final(self).pending() == old(self).pending(),
    {
        self.open = false;
    }

    /// Drains the queue and gives the store back.
    pub fn shutdown(self) -> (s: AliasStore)
        requires
            self.wf(),
        ensures
            s.wf(),
            s@ == replay(self.table(), self.pending()),
    {
        let mut a = self;
        a.run_all();
        a.store
    }
}

} // verus!
