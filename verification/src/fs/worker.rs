//! The main thread's books on the worker: how many jobs are out, which tag the
//! next one gets, and whether the thread is still there. The channels and the
//! thread belong to whoever runs it; everything decided about what comes back
//! is decided here.

use vstd::prelude::*;

use crate::fs::job::{JobTag, Outcome, Progress, WorkerMsg};

verus! {

/// Whether the worker thread is still there. `Stopped` is returned by the one
/// drain that discovers it is gone; every drain after that is quiet again.
#[derive(Clone, Copy, Debug, PartialEq, Eq)]
pub enum Health {
    Running,
    Stopped,
}

impl Default for Health {
    fn default() -> (h: Self)
        ensures
            h == Health::Running,
    {
        Health::Running
    }
}

/// The job could not be handed over: the worker has stopped.
#[derive(Clone, Copy, Debug, PartialEq, Eq)]
pub struct WorkerStopped;

/// Everything the worker sent since the last drain, folded into the shape the
/// main loop draws from.
#[derive(Debug)]
pub struct Drained {
    pub progress: Option<Progress>,
    pub finished: Vec<Outcome>,
    pub health: Health,
}

/// The main thread's end of the worker.
#[derive(Debug)]
pub struct Worker {
    queued: usize,
    next_tag: JobTag,
    health: Health,
}

/// The books a worker keeps.
pub struct WorkerView {
    pub queued: nat,
    pub next_tag: nat,
    pub health: Health,
}

impl View for Worker {
    type V = WorkerView;

    closed spec fn view(&self) -> WorkerView {
        WorkerView { queued: self.queued as nat, next_tag: self.next_tag as nat, health: self.health }
    }
}

/// The newest progress among `msgs`, which is the only one worth drawing.
pub open spec fn last_progress(msgs: Seq<WorkerMsg>) -> Option<Progress>
    decreases msgs.len(),
{
    if msgs.len() == 0 {
        None
    } else {
        match msgs.last() {
            WorkerMsg::Progress(p) => Some(p),
            WorkerMsg::Done(_) => last_progress(msgs.drop_last()),
        }
    }
}

/// Every outcome among `msgs`, in the order they were sent.
pub open spec fn outcomes(msgs: Seq<WorkerMsg>) -> Seq<Outcome>
    decreases msgs.len(),
{
    if msgs.len() == 0 {
        Seq::empty()
    } else {
        match msgs.last() {
            WorkerMsg::Progress(_) => outcomes(msgs.drop_last()),
            WorkerMsg::Done(o) => outcomes(msgs.drop_last()).push(o),
        }
    }
}

impl Worker {
    /// A worker with nothing queued, about to hand out its first tag.
    pub fn start() -> (w: Self)
        ensures
            w@.queued == 0,
            w@.next_tag == 0,
            w@.health == Health::Running,
    {
        Worker { queued: 0, next_tag: 0, health: Health::Running }
    }

    /// The tag the next job goes out under.
    pub fn next_tag(&self) -> (t: JobTag)
        ensures
            t == self@.next_tag,
    {
        self.next_tag
    }

    /// Counts a job as queued once it has been handed over, and returns the
    /// tag its outcome will carry. A job the worker could not take is not
    /// counted, and the tag is not spent.
    pub fn queue(&mut self, delivered: bool) -> (r: Result<JobTag, WorkerStopped>)
        requires
            old(self)@.next_tag < u64::MAX,
            old(self)@.queued < usize::MAX,
        ensures
            delivered ==> r == Ok::<JobTag, WorkerStopped>(old(self)@.next_tag as u64)
                && final(self)@ == (WorkerView {
                    queued: old(self)@.queued + 1,
                    next_tag: old(self)@.next_tag + 1,
                    health: old(self)@.health,
                }),
            !delivered ==> r == Err::<JobTag, WorkerStopped>(WorkerStopped) && final(self)@ == old(self)@,
    {
        if !delivered {
            return Err(WorkerStopped);
        }
        let tag = self.next_tag;
        self.next_tag = self.next_tag + 1;
        self.queued = self.queued + 1;
        Ok(tag)
    }

    /// Whether asking the queued job to stop reaches anything. With an empty
    /// queue there is nothing to stop, and raising the flag would only reach
    /// whatever is queued next.
    pub fn cancel(&self) -> (raise: bool)
        ensures
            raise == (self@.queued > 0),
    {
        !self.is_idle()
    }

    /// How many jobs are queued, counting the one that is running.
    pub fn queued(&self) -> (n: usize)
        ensures
            n == self@.queued,
    {
        self.queued
    }

    pub fn is_idle(&self) -> (idle: bool)
        ensures
            idle == (self@.queued == 0),
    {
        self.queued == 0
    }

    /// Folds in everything that was waiting: `msgs` in the order they were
    /// sent, and whether the channel was found closed behind them. Progress
    /// is overwritten as it goes, since only the newest is worth drawing;
    /// every outcome is kept, and each one takes a job off the queue. A
    /// closed channel means nothing queued will ever report back, so the
    /// queue goes to zero, and the drain that finds it says so once.
    pub fn drain(&mut self, msgs: Vec<WorkerMsg>, disconnected: bool) -> (d: Drained)
        ensures
            d.progress == last_progress(msgs@),
            d.finished@ == outcomes(msgs@),
            final(self)@.next_tag == old(self)@.next_tag,
            disconnected ==> final(self)@.queued == 0,
            !disconnected ==> final(self)@.queued == if old(self)@.queued >= outcomes(msgs@).len() {
                old(self)@.queued - outcomes(msgs@).len()
            } else {
                0
            },
            disconnected && old(self)@.health == Health::Running ==> d.health == Health::Stopped
                && final(self)@.health == Health::Stopped,
            !(disconnected && old(self)@.health == Health::Running) ==> d.health == Health::Running
                && final(self)@.health == old(self)@.health,
    {
        let mut progress: Option<Progress> = None;
        let mut finished: Vec<Outcome> = Vec::new();
        let mut rest = msgs;
        let ghost all = rest@;
        let total: usize = rest.len();
        let ghost start = self.queued;
        let mut taken: usize = 0;
        while rest.len() > 0
            invariant
                0 <= taken <= all.len(),
                all.len() == total,
                rest@ == all.skip(taken as int),
                progress == last_progress(all.take(taken as int)),
                finished@ == outcomes(all.take(taken as int)),
                self.queued == if start >= finished@.len() {
                    start - finished@.len()
                } else {
                    0
                },
                self.next_tag == old(self).next_tag,
                self.health == old(self).health,
            decreases rest.len(),
        {
            let ghost before = rest@;
            let msg = rest.remove(0);
            assert(all.take(taken + 1).drop_last() =~= all.take(taken as int));
            assert(all.take(taken + 1).last() == all[taken as int]);
            assert(before[0] == all[taken as int]);
            match msg {
                WorkerMsg::Progress(p) => {
                    progress = Some(p);
                },
                WorkerMsg::Done(outcome) => {
                    if self.queued > 0 {
                        self.queued = self.queued - 1;
                    }
                    finished.push(outcome);
                },
            }
            taken = taken + 1;
            assert(rest@ =~= all.skip(taken as int));
        }
        assert(all.take(taken as int) =~= all);
        let mut health = Health::Running;
        if disconnected {
            self.queued = 0;
            if matches!(self.health, Health::Running) {
                self.health = Health::Stopped;
                health = Health::Stopped;
            }
        }
        Drained { progress, finished, health }
    }
}

} // verus!
