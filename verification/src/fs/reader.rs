//! The reading side: a reader answers one question at a time and throws away
//! the answers to questions nobody is asking any more. A generation counter
//! says which request is the live one; it both stops the work and drops
//! whatever it had already sent.

use vstd::prelude::*;

use crate::fs::worker::Health;

verus! {

/// Which request a message belongs to. Only the newest generation is live,
/// and everything else is stale by definition.
pub type Generation = u64;

/// The generation a running job belongs to, against the newest one the reader
/// has asked for.
#[derive(Clone, Copy, Debug)]
pub struct Live {
    latest: Generation,
    generation: Generation,
}

impl Live {
    /// A job of `generation`, while the reader's newest request is `latest`.
    pub fn at(latest: Generation, generation: Generation) -> (live: Self)
        ensures
            live.latest_spec() == latest,
            live.generation_spec() == generation,
    {
        Live { latest, generation }
    }

    pub closed spec fn latest_spec(&self) -> Generation {
        self.latest
    }

    pub closed spec fn generation_spec(&self) -> Generation {
        self.generation
    }

    /// `true` once another request has been sent, or the reader cancelled.
    pub fn cancelled(&self) -> (c: bool)
        ensures
            c == (self.latest_spec() != self.generation_spec()),
    {
        self.latest != self.generation
    }
}

/// The request could not be handed over: the reader has stopped.
#[derive(Clone, Copy, Debug, PartialEq, Eq)]
pub struct ReaderStopped;

/// Everything the thread sent since the last drain that still belongs to the
/// newest request, in the order it was sent.
#[derive(Debug)]
pub struct Drained<M> {
    pub msgs: Vec<M>,
    pub health: Health,
}

/// The main thread's end of a reader: which request is the newest, and
/// whether the thread is still there.
#[derive(Debug)]
pub struct Reader {
    generation: Generation,
    health: Health,
}

pub struct ReaderView {
    pub generation: Generation,
    pub health: Health,
}

impl View for Reader {
    type V = ReaderView;

    closed spec fn view(&self) -> ReaderView {
        ReaderView { generation: self.generation, health: self.health }
    }
}

/// The messages of `msgs` that belong to `generation`, in order.
pub open spec fn live_msgs<M>(msgs: Seq<(Generation, M)>, generation: Generation) -> Seq<M>
    decreases msgs.len(),
{
    if msgs.len() == 0 {
        Seq::empty()
    } else {
        let rest = live_msgs(msgs.drop_last(), generation);
        if msgs.last().0 == generation {
            rest.push(msgs.last().1)
        } else {
            rest
        }
    }
}

/// What the main thread can do to a reader.
pub enum ReaderStep {
    Send,
    Cancel,
    Drain,
}

impl ReaderStep {
    /// The generation a reader at `g` is at after this step: a new request
    /// and a cancellation each move to a generation nothing was sent under,
    /// and a drain moves nowhere.
    pub open spec fn next(self, g: int) -> int {
        match self {
            ReaderStep::Send => g + 1,
            ReaderStep::Cancel => g + 1,
            ReaderStep::Drain => g,
        }
    }
}

/// The generation a reader at `g` is at after `steps`, in order.
pub open spec fn generation_after(g: int, steps: Seq<ReaderStep>) -> int
    decreases steps.len(),
{
    if steps.len() == 0 {
        g
    } else {
        steps.last().next(generation_after(g, steps.drop_last()))
    }
}

impl Reader {
    /// A reader that has asked nothing yet. Generation zero is the one no
    /// request is ever sent under, so before the first one every message that
    /// could arrive is already stale.
    pub fn start() -> (r: Self)
        ensures
            r@.generation == 0,
            r@.health == Health::Running,
    {
        Reader { generation: 0, health: Health::Running }
    }

    /// The generation the reader's answers are wanted for.
    pub fn generation(&self) -> (g: Generation)
        ensures
            g == self@.generation,
    {
        self.generation
    }

    /// Replaces whatever was running with a new request, and returns the
    /// generation its messages will arrive under. The old one is stale from
    /// here on whether or not the new one could be handed over.
    pub fn send(&mut self, delivered: bool) -> (r: Result<Generation, ReaderStopped>)
        requires
            old(self)@.generation < u64::MAX,
        ensures
            final(self)@.generation == ReaderStep::Send.next(old(self)@.generation as int),
            final(self)@.health == old(self)@.health,
            delivered ==> r == Ok::<Generation, ReaderStopped>(final(self)@.generation),
            !delivered ==> r == Err::<Generation, ReaderStopped>(ReaderStopped),
    {
        let generation = self.bump();
        if delivered {
            Ok(generation)
        } else {
            Err(ReaderStopped)
        }
    }

    /// Ends the running job without starting another. It stops at its next
    /// checkpoint and anything already on its way back is dropped.
    pub fn cancel(&mut self)
        requires
            old(self)@.generation < u64::MAX,
        ensures
            final(self)@.generation == ReaderStep::Cancel.next(old(self)@.generation as int),
            final(self)@.health == old(self)@.health,
    {
        self.bump();
    }

    /// Moves to a generation nothing has been sent under yet.
    fn bump(&mut self) -> (g: Generation)
        requires
            old(self)@.generation < u64::MAX,
        ensures
            g == final(self)@.generation,
            final(self)@.generation == old(self)@.generation + 1,
            final(self)@.health == old(self)@.health,
    {
        self.generation = self.generation + 1;
        self.generation
    }

    /// Keeps what belongs to the newest request out of `msgs`, in the order
    /// they were sent, and notes a closed channel behind them once.
    pub fn drain<M>(&mut self, msgs: Vec<(Generation, M)>, disconnected: bool) -> (d: Drained<M>)
        ensures
            d.msgs@ == live_msgs(msgs@, old(self)@.generation),
            final(self)@.generation == ReaderStep::Drain.next(old(self)@.generation as int),
            disconnected && old(self)@.health == Health::Running ==> d.health == Health::Stopped
                && final(self)@.health == Health::Stopped,
            !(disconnected && old(self)@.health == Health::Running) ==> d.health == Health::Running
                && final(self)@.health == old(self)@.health,
    {
        let mut kept: Vec<M> = Vec::new();
        let mut rest = msgs;
        let ghost all = rest@;
        let total: usize = rest.len();
        let mut taken: usize = 0;
        while rest.len() > 0
            invariant
                0 <= taken <= all.len(),
                all.len() == total,
                rest@ == all.skip(taken as int),
                kept@ == live_msgs(all.take(taken as int), self.generation),
                self.generation == old(self).generation,
                self.health == old(self).health,
            decreases rest.len(),
        {
            let ghost before = rest@;
            let (generation, msg) = rest.remove(0);
            assert(all.take(taken + 1).drop_last() =~= all.take(taken as int));
            assert(all.take(taken + 1).last() == all[taken as int]);
            assert(before[0] == all[taken as int]);
            if generation == self.generation {
                kept.push(msg);
            }
            taken = taken + 1;
            assert(rest@ =~= all.skip(taken as int));
        }
        assert(all.take(taken as int) =~= all);
        let mut health = Health::Running;
        if disconnected && matches!(self.health, Health::Running) {
            self.health = Health::Stopped;
            health = Health::Stopped;
        }
        Drained { msgs: kept, health }
    }
}

/// The answers of a replaced request never surface: messages sent under
/// generations before the one now wanted are all dropped by a drain.
pub proof fn replaced_answers_never_surface<M>(msgs: Seq<(Generation, M)>, generation: Generation)
    requires
        forall|i: int| 0 <= i < msgs.len() ==> (#[trigger] msgs[i]).0 < generation,
    ensures
        live_msgs(msgs, generation).len() == 0,
    decreases msgs.len(),
{
    if msgs.len() > 0 {
        assert forall|i: int| 0 <= i < msgs.drop_last().len() implies (#[trigger] msgs.drop_last()[i]).0 < generation by {
            assert(msgs.drop_last()[i] == msgs[i]);
        }
        replaced_answers_never_surface(msgs.drop_last(), generation);
        assert(msgs[msgs.len() - 1].0 < generation);
    }
}

/// The generation a reader is at only grows: after `steps`, it is at least
/// where it started, and past it once any step was a send or a cancellation.
proof fn generation_grows(g: int, steps: Seq<ReaderStep>, i: int)
    requires
        0 <= i < steps.len(),
        !(steps[i] is Drain),
    ensures
        generation_after(g, steps) > g,
    decreases steps.len(),
{
    if i < steps.len() - 1 {
        generation_grows(g, steps.drop_last(), i);
    } else {
        generation_stays_above(g, steps.drop_last());
    }
}

proof fn generation_stays_above(g: int, steps: Seq<ReaderStep>)
    ensures
        generation_after(g, steps) >= g,
    decreases steps.len(),
{
    if steps.len() > 0 {
        generation_stays_above(g, steps.drop_last());
    }
}

/// Once a request has been replaced or cancelled, none of its answers ever
/// surfaces again: whatever the reader does after the send or cancellation
/// that replaced it, every later drain is at a newer generation and drops
/// every message sent under the replaced one or any before it.
pub proof fn replaced_answers_stay_dropped<M>(
    replaced: Generation,
    steps: Seq<ReaderStep>,
    i: int,
    msgs: Seq<(Generation, M)>,
)
    requires
        0 <= i < steps.len(),
        !(steps[i] is Drain),
        generation_after(replaced as int, steps) <= u64::MAX,
        forall|k: int| 0 <= k < msgs.len() ==> (#[trigger] msgs[k]).0 <= replaced,
    ensures
        live_msgs(msgs, generation_after(replaced as int, steps) as Generation).len() == 0,
{
    generation_grows(replaced as int, steps, i);
    replaced_answers_never_surface(msgs, generation_after(replaced as int, steps) as Generation);
}

} // verus!
