//! What the main loop and the worker say to each other, and how a running job
//! keeps its books: every item of a batch is counted once, by what became of
//! it.

use vstd::prelude::*;

use crate::fs::ops::{
    Count, DeleteMode, MutationOp, OnCollision, ProcessedSummary, SummaryView, Transfer, TransferOp,
    Unfinished,
};
use crate::fs::archive::Format;

verus! {

/// Rides along with a job and comes back on its outcome untouched.
pub type JobTag = u64;

/// What a job set out to do, kept so the main loop can word the report without
/// remembering what it queued.
#[derive(Clone, Copy, Debug, PartialEq, Eq)]
pub enum JobKind {
    Transfer(TransferOp),
    Delete(DeleteMode),
    Pack,
    Unpack,
    Mutate,
}

/// A unit of work holding everything it needs. The paths are taken when the
/// job is queued and never looked up again.
#[derive(Debug)]
pub enum Work {
    Transfer { op: TransferOp, items: Vec<Transfer>, policy: OnCollision },
    Delete { items: Vec<String>, mode: DeleteMode },
    Pack { items: Vec<String>, archive: String, format: Format },
    Unpack { items: Vec<String>, into: String },
    Mutate(MutationOp),
}

impl Work {
    pub open spec fn kind_spec(&self) -> JobKind {
        match self {
            Work::Transfer { op, .. } => JobKind::Transfer(*op),
            Work::Delete { mode, .. } => JobKind::Delete(*mode),
            Work::Pack { .. } => JobKind::Pack,
            Work::Unpack { .. } => JobKind::Unpack,
            Work::Mutate(_) => JobKind::Mutate,
        }
    }

    pub fn kind(&self) -> (k: JobKind)
        ensures
            k == self.kind_spec(),
    {
        match self {
            Work::Transfer { op, .. } => JobKind::Transfer(*op),
            Work::Delete { mode, .. } => JobKind::Delete(*mode),
            Work::Pack { .. } => JobKind::Pack,
            Work::Unpack { .. } => JobKind::Unpack,
            Work::Mutate(_) => JobKind::Mutate,
        }
    }
}

/// What the bar fills with. A transfer weighs its tree before it starts, so it
/// can fill by bytes; deleting takes no time proportional to size, so it
/// fills by items.
#[derive(Clone, Copy, Debug, PartialEq, Eq)]
pub enum Measure {
    Bytes { done: u64, total: u64 },
    Items,
}

/// A snapshot of the running job.
#[derive(Clone, Debug)]
pub struct Progress {
    pub items_done: usize,
    pub items_total: usize,
    pub current: String,
    pub measure: Measure,
}

/// How a finished job went.
#[derive(Debug)]
pub struct Outcome {
    pub tag: JobTag,
    pub kind: JobKind,
    pub summary: ProcessedSummary,
    /// The items the job could not handle, so they can be marked again and
    /// retried. Cancelled items are not among them: they were never tried.
    pub failed: Vec<String>,
    /// The pairs whose destination was already taken.
    pub collided: Vec<Transfer>,
    /// Where items landed that took a numbered name of their own.
    pub kept: Vec<String>,
    /// What went into no archive, or came out of none.
    pub left_out: Vec<String>,
    /// The last error, for a job whose counts alone would not say what went
    /// wrong.
    pub reason: Option<String>,
}

#[derive(Debug)]
pub enum WorkerMsg {
    Progress(Progress),
    Done(Outcome),
}

/// How one step of a job came out, as far as the books are concerned.
#[derive(Debug)]
pub enum Step<T> {
    /// It went through, with what it left behind.
    Done(T),
    /// It failed on its own, for the reason given.
    Failed(String),
    /// It stopped because the job was cancelled.
    Cancelled,
}

/// How deleting one item came out.
#[derive(Clone, Copy, Debug, PartialEq, Eq)]
pub enum Deleted {
    Removed,
    /// Nothing was there any more: a mark can outlive the file it points at.
    NotFound,
}

/// The books of a running job: the summary, and the lists an outcome carries.
///
/// Every item is counted once, so the counts never add up to more than the
/// batch holds.
#[derive(Debug)]
pub struct Batch {
    pub summary: ProcessedSummary,
    pub failed: Vec<String>,
    pub collided: Vec<Transfer>,
    pub kept: Vec<String>,
    pub left_out: Vec<String>,
    pub reason: Option<String>,
    /// Items whose end has been written down, one way or another.
    pub recorded: usize,
}

impl Batch {
    /// The books are consistent: every recorded item is counted at most once
    /// and no more items are recorded than the batch holds.
    pub open spec fn wf(&self) -> bool {
        &&& self.summary@.counted() <= self.recorded
        &&& self.recorded <= self.summary@.total
        &&& self.summary@.total <= usize::MAX
        &&& (self.reason is Some <==> self.summary@.failed > 0)
    }

    /// A batch of `total` items, nothing recorded yet.
    pub fn new(total: usize) -> (b: Self)
        ensures
            b.wf(),
            b.summary@ == SummaryView::start(total as nat),
            b.recorded == 0,
            b.failed@.len() == 0,
            b.collided@.len() == 0,
            b.kept@.len() == 0,
            b.left_out@.len() == 0,
            b.reason is None,
    {
        Batch {
            summary: ProcessedSummary::new(total),
            failed: Vec::new(),
            collided: Vec::new(),
            kept: Vec::new(),
            left_out: Vec::new(),
            reason: None,
            recorded: 0,
        }
    }

    /// Whether every item of the batch has been recorded.
    pub open spec fn full(&self) -> bool {
        self.recorded >= self.summary@.total
    }

    /// Writes down one transfer item. An item is counted by what it left
    /// behind rather than by what went through: a tree that clashed at one
    /// leaf is not a tree the batch is finished with. Returns whether the
    /// batch carries on: a cancelled item ends it and is not counted.
    pub fn transfer_done(&mut self, from: String, step: Step<Unfinished>) -> (carry_on: bool)
        requires
            old(self).wf(),
            !old(self).full(),
        ensures
            final(self).wf(),
            carry_on == !(step is Cancelled),
            final(self).left_out@ == old(self).left_out@,
            match step {
                Step::Done(left) => {
                    &&& final(self).recorded == old(self).recorded + 1
                    &&& final(self).failed@ == old(self).failed@
                    &&& final(self).reason == old(self).reason
                    &&& if left.collided@.len() > 0 {
                        &&& final(self).summary@ == old(self).summary@.count(Count::Collided)
                        &&& final(self).collided@ == old(self).collided@ + left.collided@
                        &&& final(self).kept@ == old(self).kept@ + left.kept@
                    } else if left.kept@.len() > 0 {
                        &&& final(self).summary@ == old(self).summary@.count(Count::Processed)
                        &&& final(self).collided@ == old(self).collided@
                        &&& final(self).kept@ == old(self).kept@ + left.kept@
                    } else {
                        &&& final(self).summary@ == old(self).summary@.count(
                            if left.skipped > 0 { Count::Skipped } else { Count::Processed },
                        )
                        &&& final(self).collided@ == old(self).collided@
                        &&& final(self).kept@ == old(self).kept@
                    }
                },
                Step::Failed(reason) => {
                    &&& final(self).recorded == old(self).recorded + 1
                    &&& final(self).summary@ == old(self).summary@.count(Count::Failed)
                    &&& final(self).failed@ == old(self).failed@.push(from)
                    &&& final(self).reason == Some(reason)
                    &&& final(self).collided@ == old(self).collided@
                    &&& final(self).kept@ == old(self).kept@
                },
                Step::Cancelled => {
                    &&& final(self).recorded == old(self).recorded
                    &&& final(self).summary@ == old(self).summary@
                    &&& final(self).failed@ == old(self).failed@
                    &&& final(self).reason == old(self).reason
                    &&& final(self).collided@ == old(self).collided@
                    &&& final(self).kept@ == old(self).kept@
                },
            },
    {
        match step {
            Step::Cancelled => false,
            Step::Failed(reason) => {
                self.summary.fail();
                self.failed.push(from);
                self.reason = Some(reason);
                self.recorded = self.recorded + 1;
                true
            },
            Step::Done(mut left) => {
                if left.nothing_left() {
                    self.summary.process();
                } else if left.collided.len() > 0 {
                    self.summary.collide();
                    self.collided.append(&mut left.collided);
                    self.kept.append(&mut left.kept);
                } else if left.kept.len() == 0 {
                    self.summary.skip();
                } else {
                    self.summary.process();
                    self.kept.append(&mut left.kept);
                }
                self.recorded = self.recorded + 1;
                true
            },
        }
    }

    /// Writes down one deletion. An item that was no longer there is skipped
    /// rather than failed.
    pub fn delete_done(&mut self, item: String, step: Step<Deleted>) -> (carry_on: bool)
        requires
            old(self).wf(),
            !old(self).full(),
        ensures
            final(self).wf(),
            carry_on == !(step is Cancelled),
            final(self).collided@ == old(self).collided@,
            final(self).kept@ == old(self).kept@,
            final(self).left_out@ == old(self).left_out@,
            match step {
                Step::Done(d) => {
                    &&& final(self).recorded == old(self).recorded + 1
                    &&& final(self).summary@ == old(self).summary@.count(
                        if d == Deleted::Removed { Count::Processed } else { Count::Skipped },
                    )
                    &&& final(self).failed@ == old(self).failed@
                    &&& final(self).reason == old(self).reason
                },
                Step::Failed(reason) => {
                    &&& final(self).recorded == old(self).recorded + 1
                    &&& final(self).summary@ == old(self).summary@.count(Count::Failed)
                    &&& final(self).failed@ == old(self).failed@.push(item)
                    &&& final(self).reason == Some(reason)
                },
                Step::Cancelled => {
                    &&& final(self).recorded == old(self).recorded
                    &&& final(self).summary@ == old(self).summary@
                    &&& final(self).failed@ == old(self).failed@
                    &&& final(self).reason == old(self).reason
                },
            },
    {
        match step {
            Step::Cancelled => false,
            Step::Done(Deleted::Removed) => {
                self.summary.process();
                self.recorded = self.recorded + 1;
                true
            },
            Step::Done(Deleted::NotFound) => {
                self.summary.skip();
                self.recorded = self.recorded + 1;
                true
            },
            Step::Failed(reason) => {
                self.summary.fail();
                self.failed.push(item);
                self.reason = Some(reason);
                self.recorded = self.recorded + 1;
                true
            },
        }
    }
}

impl Batch {
    /// Writes down the one archive a pack job makes. Whatever came of it,
    /// every item either went in or goes back on the panel: a cancelled or
    /// failed archive gives all of `items` back.
    pub fn pack_done(&mut self, items: Vec<String>, step: Step<Vec<String>>)
        requires
            old(self).wf(),
            !old(self).full(),
        ensures
            final(self).wf(),
            final(self).recorded == old(self).recorded + 1,
            final(self).collided@ == old(self).collided@,
            final(self).kept@ == old(self).kept@,
            match step {
                Step::Done(refused) => {
                    &&& final(self).summary@ == old(self).summary@.count(Count::Processed)
                    &&& final(self).left_out@ == old(self).left_out@ + refused@
                    &&& final(self).failed@ == old(self).failed@
                    &&& final(self).reason == old(self).reason
                },
                Step::Failed(reason) => {
                    &&& final(self).summary@ == old(self).summary@.count(Count::Failed)
                    &&& final(self).left_out@ == old(self).left_out@
                    &&& final(self).failed@ == old(self).failed@ + items@
                    &&& final(self).reason == Some(reason)
                },
                Step::Cancelled => {
                    &&& final(self).summary@ == old(self).summary@
                    &&& final(self).left_out@ == old(self).left_out@
                    &&& final(self).failed@ == old(self).failed@ + items@
                    &&& final(self).reason == old(self).reason
                },
            },
    {
        let mut items = items;
        match step {
            Step::Done(mut refused) => {
                self.summary.process();
                self.left_out.append(&mut refused);
            },
            Step::Failed(reason) => {
                self.summary.fail();
                self.reason = Some(reason);
                self.failed.append(&mut items);
            },
            Step::Cancelled => {
                self.failed.append(&mut items);
            },
        }
        self.recorded = self.recorded + 1;
    }

    /// Writes down one archive of an unpack job. What came out lands in a
    /// directory of its own, which is kept so it can be said out loud; a
    /// cancelled archive goes back on the panel, and so does every one behind
    /// it, which `give_back` is for. Returns whether the batch carries on.
    pub fn unpack_done(&mut self, item: String, step: Step<(String, Vec<String>)>) -> (carry_on: bool)
        requires
            old(self).wf(),
            !old(self).full(),
        ensures
            final(self).wf(),
            carry_on == !(step is Cancelled),
            final(self).collided@ == old(self).collided@,
            match step {
                Step::Done((into, refused)) => {
                    &&& final(self).recorded == old(self).recorded + 1
                    &&& final(self).summary@ == old(self).summary@.count(Count::Processed)
                    &&& final(self).kept@ == old(self).kept@.push(into)
                    &&& final(self).left_out@ == old(self).left_out@ + refused@
                    &&& final(self).failed@ == old(self).failed@
                    &&& final(self).reason == old(self).reason
                },
                Step::Failed(reason) => {
                    &&& final(self).recorded == old(self).recorded + 1
                    &&& final(self).summary@ == old(self).summary@.count(Count::Failed)
                    &&& final(self).kept@ == old(self).kept@
                    &&& final(self).left_out@ == old(self).left_out@
                    &&& final(self).failed@ == old(self).failed@.push(item)
                    &&& final(self).reason == Some(reason)
                },
                Step::Cancelled => {
                    &&& final(self).recorded == old(self).recorded
                    &&& final(self).summary@ == old(self).summary@
                    &&& final(self).kept@ == old(self).kept@
                    &&& final(self).left_out@ == old(self).left_out@
                    &&& final(self).failed@ == old(self).failed@.push(item)
                    &&& final(self).reason == old(self).reason
                },
            },
    {
        match step {
            Step::Done((into, mut refused)) => {
                self.summary.process();
                self.kept.push(into);
                self.left_out.append(&mut refused);
                self.recorded = self.recorded + 1;
                true
            },
            Step::Failed(reason) => {
                self.summary.fail();
                self.failed.push(item);
                self.reason = Some(reason);
                self.recorded = self.recorded + 1;
                true
            },
            Step::Cancelled => {
                self.failed.push(item);
                false
            },
        }
    }

    /// Puts the items a cancelled unpack never reached back on the panel.
    pub fn give_back(&mut self, rest: Vec<String>)
        ensures
            final(self).failed@ == old(self).failed@ + rest@,
            final(self).summary@ == old(self).summary@,
            final(self).recorded == old(self).recorded,
            final(self).collided@ == old(self).collided@,
            final(self).kept@ == old(self).kept@,
            final(self).left_out@ == old(self).left_out@,
            final(self).reason == old(self).reason,
    {
        let mut rest = rest;
        self.failed.append(&mut rest);
    }

    /// Writes down the one change a mutation job makes.
    pub fn mutate_done(&mut self, step: Step<()>)
        requires
            old(self).wf(),
            !old(self).full(),
        ensures
            final(self).wf(),
            final(self).failed@ == old(self).failed@,
            final(self).collided@ == old(self).collided@,
            final(self).kept@ == old(self).kept@,
            final(self).left_out@ == old(self).left_out@,
            match step {
                Step::Done(_) => {
                    &&& final(self).recorded == old(self).recorded + 1
                    &&& final(self).summary@ == old(self).summary@.count(Count::Processed)
                    &&& final(self).reason == old(self).reason
                },
                Step::Failed(reason) => {
                    &&& final(self).recorded == old(self).recorded + 1
                    &&& final(self).summary@ == old(self).summary@.count(Count::Failed)
                    &&& final(self).reason == Some(reason)
                },
                Step::Cancelled => {
                    &&& final(self).recorded == old(self).recorded
                    &&& final(self).summary@ == old(self).summary@
                    &&& final(self).reason == old(self).reason
                },
            },
    {
        match step {
            Step::Done(_) => {
                self.summary.process();
                self.recorded = self.recorded + 1;
            },
            Step::Failed(reason) => {
                self.summary.fail();
                self.reason = Some(reason);
                self.recorded = self.recorded + 1;
            },
            Step::Cancelled => {},
        }
    }

    /// The report the books make once the job is over.
    pub fn into_outcome(self, tag: JobTag, kind: JobKind) -> (o: Outcome)
        ensures
            o.tag == tag,
            o.kind == kind,
            o.summary@ == self.summary@,
            o.failed@ == self.failed@,
            o.collided@ == self.collided@,
            o.kept@ == self.kept@,
            o.left_out@ == self.left_out@,
            o.reason == self.reason,
    {
        Outcome {
            tag,
            kind,
            summary: self.summary,
            failed: self.failed,
            collided: self.collided,
            kept: self.kept,
            left_out: self.left_out,
            reason: self.reason,
        }
    }
}

} // verus!
