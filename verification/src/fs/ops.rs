//! What a batch of filesystem operations decides: how each item is counted,
//! what is done about a destination that is already taken, and which names a
//! transfer may write to.

use vstd::prelude::*;

use crate::fs::directory::{file_name, file_name_of};
use crate::places::joined_spec;
use crate::text::{chars_of, push_str, string_of};
use crate::ui::label::{name_of, name_of_spec};

verus! {

/// How a batch of filesystem operations ended. `total` is the size of the
/// batch, fixed when it starts, so a run that stops early is still reported
/// against what it set out to do. A batch never fails as a whole: an item that
/// cannot be handled is counted, and the run carries on to the next one.
#[derive(Debug)]
pub struct ProcessedSummary {
    processed: usize,
    skipped: usize,
    failed: usize,
    collided: usize,
    total: usize,
}

/// The counts of a summary.
pub struct SummaryView {
    pub processed: nat,
    pub skipped: nat,
    pub failed: nat,
    pub collided: nat,
    pub total: nat,
}

impl View for ProcessedSummary {
    type V = SummaryView;

    closed spec fn view(&self) -> SummaryView {
        SummaryView {
            processed: self.processed as nat,
            skipped: self.skipped as nat,
            failed: self.failed as nat,
            collided: self.collided as nat,
            total: self.total as nat,
        }
    }
}

/// The one way each item of a batch ends up counted.
pub enum Count {
    Processed,
    Skipped,
    Failed,
    Collided,
}

impl SummaryView {
    /// How many items have been counted one way or another.
    pub open spec fn counted(self) -> nat {
        self.processed + self.skipped + self.failed + self.collided
    }

    /// A batch of `total` items with nothing counted yet.
    pub open spec fn start(total: nat) -> SummaryView {
        SummaryView { processed: 0, skipped: 0, failed: 0, collided: 0, total }
    }

    /// The counts after one more item, counted as `c`.
    pub open spec fn count(self, c: Count) -> SummaryView {
        match c {
            Count::Processed => SummaryView { processed: self.processed + 1, ..self },
            Count::Skipped => SummaryView { skipped: self.skipped + 1, ..self },
            Count::Failed => SummaryView { failed: self.failed + 1, ..self },
            Count::Collided => SummaryView { collided: self.collided + 1, ..self },
        }
    }

    /// The counts after the items of `cs`, in order.
    pub open spec fn count_all(self, cs: Seq<Count>) -> SummaryView
        decreases cs.len(),
    {
        if cs.len() == 0 {
            self
        } else {
            self.count_all(cs.drop_last()).count(cs.last())
        }
    }
}

/// However the items of a batch come to be counted, and in whatever order,
/// the batch keeps the size it began with, and every count adds exactly one
/// item to what has been counted.
pub proof fn the_total_never_moves(total: nat, cs: Seq<Count>)
    ensures
        SummaryView::start(total).count_all(cs).total == total,
        SummaryView::start(total).count_all(cs).counted() == cs.len(),
    decreases cs.len(),
{
    if cs.len() > 0 {
        the_total_never_moves(total, cs.drop_last());
    }
}

impl ProcessedSummary {
    pub fn new(total: usize) -> (s: Self)
        ensures
            s@ == SummaryView::start(total as nat),
    {
        ProcessedSummary { processed: 0, skipped: 0, failed: 0, collided: 0, total }
    }

    pub fn process(&mut self)
        requires
            old(self)@.processed < usize::MAX,
        ensures
            final(self)@ == old(self)@.count(Count::Processed),
    {
        self.processed = self.processed + 1;
    }

    pub fn skip(&mut self)
        requires
            old(self)@.skipped < usize::MAX,
        ensures
            final(self)@ == old(self)@.count(Count::Skipped),
    {
        self.skipped = self.skipped + 1;
    }

    pub fn fail(&mut self)
        requires
            old(self)@.failed < usize::MAX,
        ensures
            final(self)@ == old(self)@.count(Count::Failed),
    {
        self.failed = self.failed + 1;
    }

    pub fn collide(&mut self)
        requires
            old(self)@.collided < usize::MAX,
        ensures
            final(self)@ == old(self)@.count(Count::Collided),
    {
        self.collided = self.collided + 1;
    }

    pub fn processed(&self) -> (n: usize)
        ensures
            n == self@.processed,
    {
        self.processed
    }

    pub fn skipped(&self) -> (n: usize)
        ensures
            n == self@.skipped,
    {
        self.skipped
    }

    pub fn failed(&self) -> (n: usize)
        ensures
            n == self@.failed,
    {
        self.failed
    }

    pub fn collided(&self) -> (n: usize)
        ensures
            n == self@.collided,
    {
        self.collided
    }

    pub fn total(&self) -> (n: usize)
        ensures
            n == self@.total,
    {
        self.total
    }

    /// Whether nothing went through, either because nothing was marked or
    /// because every item was skipped or failed.
    pub fn nothing_processed(&self) -> (b: bool)
        ensures
            b == (self@.processed == 0),
    {
        self.processed == 0
    }

    pub fn has_failures(&self) -> (b: bool)
        ensures
            b == (self@.failed > 0),
    {
        self.failed > 0
    }

    /// Whether the disk may have changed. A failed item counts, and so does a
    /// collided one: either can give up part way through a tree and still
    /// leave something behind.
    pub fn touched_disk(&self) -> (b: bool)
        ensures
            b == (self@.processed > 0 || self@.failed > 0 || self@.collided > 0),
    {
        self.processed > 0 || self.failed > 0 || self.collided > 0
    }
}

/// What a transfer does with an item whose destination is already taken.
/// `Refuse` fails the item and is what a transfer did before there was
/// anything to choose.
#[derive(Clone, Copy, Debug, PartialEq, Eq)]
pub enum OnCollision {
    Refuse,
    Overwrite,
    Skip,
    KeepBoth,
}

impl Default for OnCollision {
    fn default() -> (o: Self)
        ensures
            o == OnCollision::Refuse,
    {
        OnCollision::Refuse
    }
}

/// One item of a transfer: what moves, and the name it lands under.
#[derive(Clone, Debug, PartialEq, Eq)]
pub struct Transfer {
    pub from: String,
    pub to: String,
}

/// The answer a job carries into every collision it meets, and the
/// destinations that answer may be applied to.
///
/// Only what was already standing when the job started may be overwritten.
/// Anything that appeared since is the job's own output, and overwriting that
/// would leave one file where two were asked for, with no telling which.
#[derive(Debug)]
pub struct Policy {
    on_collision: OnCollision,
    preexisting: Vec<String>,
}

/// A policy's answer, and the destinations that were standing before the job
/// wrote anything.
pub struct PolicyView {
    pub on_collision: OnCollision,
    pub preexisting: Set<Seq<char>>,
}

/// The characters of every string of `v`, in order.
pub open spec fn strings_of(v: Seq<String>) -> Seq<Seq<char>> {
    v.map_values(|p: String| p@)
}

/// The paths `v` names, as a set.
pub open spec fn paths_of(v: Seq<String>) -> Set<Seq<char>> {
    strings_of(v).to_set()
}

impl View for Policy {
    type V = PolicyView;

    closed spec fn view(&self) -> PolicyView {
        PolicyView {
            on_collision: self.on_collision,
            preexisting: paths_of(self.preexisting@),
        }
    }
}

impl PolicyView {
    /// What to do about the destination `to`: an overwrite reaches only what
    /// was already there, and anything else is refused instead.
    pub open spec fn on(self, to: Seq<char>) -> OnCollision {
        match self.on_collision {
            OnCollision::Overwrite => if self.preexisting.contains(to) {
                OnCollision::Overwrite
            } else {
                OnCollision::Refuse
            },
            answer => answer,
        }
    }
}

impl Policy {
    /// The answer `on_collision`, over the destinations `preexisting` that
    /// were read before anything was written.
    pub fn new(on_collision: OnCollision, preexisting: Vec<String>) -> (p: Self)
        ensures
            p@.on_collision == on_collision,
            p@.preexisting == paths_of(preexisting@),
    {
        Policy { on_collision, preexisting }
    }

    /// What to do about the destination `to`.
    pub fn on(&self, to: &String) -> (answer: OnCollision)
        ensures
            answer == self@.on(to@),
    {
        match self.on_collision {
            OnCollision::Overwrite => {
                let mut i: usize = 0;
                while i < self.preexisting.len()
                    invariant
                        self.on_collision == OnCollision::Overwrite,
                        i <= self.preexisting.len(),
                        forall|k: int| 0 <= k < i ==> self.preexisting@[k]@ != to@,
                    decreases self.preexisting.len() - i,
                {
                    if self.preexisting[i] == *to {
                        proof {
                            let mapped = strings_of(self.preexisting@);
                            assert(mapped[i as int] == to@);
                            assert(mapped.to_set().contains(to@));
                        }
                        return OnCollision::Overwrite;
                    }
                    i += 1;
                }
                proof {
                    let mapped = strings_of(self.preexisting@);
                    assert(!mapped.to_set().contains(to@)) by {
                        if mapped.to_set().contains(to@) {
                            let k = choose|k: int| 0 <= k < mapped.len() && mapped[k] == to@;
                            assert(self.preexisting@[k]@ == to@);
                        }
                    }
                }
                OnCollision::Refuse
            },
            answer => answer,
        }
    }
}

/// What one item's transfer left behind. Nothing skipped and nothing collided
/// means the whole tree went through.
#[derive(Debug)]
pub struct Unfinished {
    /// Leaves stepped over, because the answer was to skip them.
    pub skipped: usize,
    /// Leaves whose destination was taken and which this job had no answer
    /// for.
    pub collided: Vec<Transfer>,
    /// Leaves that landed under a numbered name of their own.
    pub kept: Vec<String>,
}

impl Unfinished {
    /// Nothing left behind yet.
    pub fn none() -> (u: Self)
        ensures
            u.skipped == 0,
            u.collided@.len() == 0,
            u.kept@.len() == 0,
    {
        Unfinished { skipped: 0, collided: Vec::new(), kept: Vec::new() }
    }

    /// Whether the item went through whole and under the names asked for.
    pub fn nothing_left(&self) -> (b: bool)
        ensures
            b == (self.skipped == 0 && self.collided@.len() == 0 && self.kept@.len() == 0),
    {
        self.skipped == 0 && self.collided.len() == 0 && self.kept.len() == 0
    }
}

/// What a name holds, read without following a symlink.
#[derive(Clone, Copy, Debug, PartialEq, Eq)]
pub enum Standing {
    Directory,
    Other,
}

/// What the destination holds, against the source standing at the same name.
#[derive(Clone, Copy, Debug, PartialEq, Eq)]
pub enum Pairing {
    /// Nothing is there, so the whole source goes in as it stands.
    Free,
    /// A directory on a directory. The two merge, name by name, a level down.
    Merge,
    /// Anything else standing where the source wants to be.
    Collision,
}

/// Reads both sides of one name. A destination that cannot be read at all is
/// taken as free, and whatever stopped it being read comes back from the
/// write that follows.
pub fn pairing(source: Standing, destination: Option<Standing>) -> (p: Pairing)
    ensures
        destination is None ==> p == Pairing::Free,
        destination == Some(Standing::Directory) && source == Standing::Directory ==> p
            == Pairing::Merge,
        destination is Some && !(destination == Some(Standing::Directory) && source
            == Standing::Directory) ==> p == Pairing::Collision,
{
    match destination {
        None => Pairing::Free,
        Some(Standing::Directory) => match source {
            Standing::Directory => Pairing::Merge,
            Standing::Other => Pairing::Collision,
        },
        Some(Standing::Other) => Pairing::Collision,
    }
}

#[derive(Clone, Copy, Debug, PartialEq, Eq)]
pub enum TransferOp {
    Copy,
    Move,
}

/// Which of the two deletions a job carries out.
#[derive(Clone, Copy, Debug, PartialEq, Eq)]
pub enum DeleteMode {
    Trash,
    Permanent,
}

/// What a collision comes to under a policy.
#[derive(Clone, Copy, Debug, PartialEq, Eq)]
pub enum Resolution {
    /// The pair goes back to be asked about.
    Collided,
    /// Stepped over.
    Skipped,
    /// What stands at the destination is replaced.
    Overwrite,
    /// The source goes in under a numbered name beside it.
    KeepBoth,
}

impl TransferOp {
    /// Answers a collision between `from` and `to` the way `policy` says. An
    /// answer this job does not have is not a failure: the pair is written
    /// down in `unfinished` and comes back for the question to be put, and a
    /// skip is counted there too.
    pub fn resolve(&self, from: &String, to: &String, policy: &Policy, unfinished: &mut Unfinished) -> (r: Resolution)
        requires
            old(unfinished).skipped < usize::MAX,
        ensures
            r == match policy@.on(to@) {
                OnCollision::Refuse => Resolution::Collided,
                OnCollision::Skip => Resolution::Skipped,
                OnCollision::Overwrite => Resolution::Overwrite,
                OnCollision::KeepBoth => Resolution::KeepBoth,
            },
            r == Resolution::Collided ==> final(unfinished).collided@.len() == old(unfinished).collided@.len() + 1
                && final(unfinished).collided@.last().from@ == from@
                && final(unfinished).collided@.last().to@ == to@
                && final(unfinished).collided@.drop_last() == old(unfinished).collided@,
            r != Resolution::Collided ==> final(unfinished).collided@ == old(unfinished).collided@,
            r == Resolution::Skipped ==> final(unfinished).skipped == old(unfinished).skipped + 1,
            r != Resolution::Skipped ==> final(unfinished).skipped == old(unfinished).skipped,
            final(unfinished).kept@ == old(unfinished).kept@,
    {
        match policy.on(to) {
            OnCollision::Refuse => {
                unfinished.collided.push(Transfer { from: from.clone(), to: to.clone() });
                Resolution::Collided
            },
            OnCollision::Skip => {
                unfinished.skipped = unfinished.skipped + 1;
                Resolution::Skipped
            },
            OnCollision::Overwrite => Resolution::Overwrite,
            OnCollision::KeepBoth => Resolution::KeepBoth,
        }
    }
}

/// A change to one name, carried out on its own.
#[derive(Debug)]
pub enum MutationOp {
    Delete { path: String, mode: DeleteMode },
    Rename { path: String, new_name: String },
    CreateDir { parent: String, name: String },
    CreateFile { parent: String, name: String },
}

/// `base` with `part` pushed on, as `Path::join` does it: an absolute part, or
/// any part pushed onto an empty path, stands alone; anything else goes in
/// behind a separator.
pub open spec fn pushed_spec(base: Seq<char>, part: Seq<char>) -> Seq<char> {
    if base.len() == 0 || (part.len() > 0 && part[0] == '/') {
        part
    } else {
        joined_spec(base, part)
    }
}

/// `base` with `part` pushed on.
pub fn pushed(base: &str, part: &Vec<char>) -> (p: String)
    ensures
        p@ == pushed_spec(base@, part@),
{
    let mut out = chars_of(base);
    if out.len() == 0 || (part.len() > 0 && part[0] == '/') {
        return string_of(part.as_slice());
    }
    if out[out.len() - 1] != '/' {
        push_str(&mut out, "/");
    }
    let mut rest = part.clone();
    out.append(&mut rest);
    string_of(out.as_slice())
}

/// Where an item at `from` lands when it goes into the directory `into`:
/// `into` with the item's name pushed on, or nothing pushed on for a path
/// that has no name.
pub open spec fn destination_of(into: Seq<char>, from: Seq<char>) -> Seq<char> {
    pushed_spec(into, match file_name_of(from) {
        Some(name) => name,
        None => Seq::empty(),
    })
}

/// One transfer per item, in order, each into `into` under its own name.
pub fn transfers_into(into: &str, items: Vec<String>) -> (t: Vec<Transfer>)
    ensures
        t@.len() == items@.len(),
        forall|i: int| 0 <= i < items@.len() ==> (#[trigger] t@[i]).from@ == items@[i]@
            && t@[i].to@ == destination_of(into@, items@[i]@),
{
    let mut t: Vec<Transfer> = Vec::new();
    let mut i: usize = 0;
    while i < items.len()
        invariant
            i <= items@.len(),
            t@.len() == i,
            forall|k: int| 0 <= k < i ==> (#[trigger] t@[k]).from@ == items@[k]@
                && t@[k].to@ == destination_of(into@, items@[k]@),
        decreases items.len() - i,
    {
        let name = match file_name(items[i].as_str()) {
            Some(n) => n,
            None => Vec::new(),
        };
        assert(name@ == match file_name_of(items@[i as int]@) {
            Some(n) => n,
            None => Seq::<char>::empty(),
        });
        let to = pushed(into, &name);
        let from = string_of(chars_of(items[i].as_str()).as_slice());
        t.push(Transfer { from, to });
        i += 1;
    }
    t
}

/// Where the zip packed from marks headed by `first` goes in `into`: named
/// after `first`, with `.zip` behind the name.
pub open spec fn archive_of(into: Seq<char>, first: Seq<char>) -> Seq<char> {
    pushed_spec(into, name_of_spec(first) + ".zip"@)
}

/// The path of the zip packed from marks headed by `first`, in `into`.
pub fn archive_into(into: &str, first: &str) -> (p: String)
    ensures
        p@ == archive_of(into@, first@),
{
    let mut name = chars_of(name_of(first).as_str());
    push_str(&mut name, ".zip");
    pushed(into, &name)
}

} // verus!
