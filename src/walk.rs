use vstd::prelude::*;

use crate::stats::{DemoStats, StatsModel};

verus! {

/// What the file system says an entry is.
#[derive(Clone, Copy, Debug, PartialEq, Eq, Structural)]
pub enum EntryKind {
    Directory,
    RegularFile,
    Other,
}

/// What the walk does with an entry.
#[derive(Clone, Copy, Debug, PartialEq, Eq, Structural)]
pub enum Visit {
    Descend,
    Attempt,
    Skip,
}

/// Directories are descended into and regular files attempted. Any other
/// entry is skipped, except the root: a root that is not a directory is
/// attempted whatever it is, so that the user learns why it cannot be read.
pub open spec fn visit_of(kind: EntryKind, is_root: bool) -> Visit {
    match kind {
        EntryKind::Directory => Visit::Descend,
        EntryKind::RegularFile => Visit::Attempt,
        EntryKind::Other => if is_root {
            Visit::Attempt
        } else {
            Visit::Skip
        },
    }
}

pub fn choose_visit(kind: EntryKind, is_root: bool) -> (v: Visit)
    ensures
        v == visit_of(kind, is_root),
{
    match kind {
        EntryKind::Directory => Visit::Descend,
        EntryKind::RegularFile => Visit::Attempt,
        EntryKind::Other => if is_root {
            Visit::Attempt
        } else {
            Visit::Skip
        },
    }
}

/// How one attempt at a file ended.
#[derive(Debug)]
pub enum AttemptOutcome {
    /// The file could not be read as text.
    ReadFailure(String),
    /// The text did not parse; the parser's message.
    ParseFailure(String),
    Success,
}

/// The statistics of one attempt at a file of `size_bytes` bytes: it counts
/// as parsed exactly when it succeeded.
pub fn attempt_stats(size_bytes: u64, outcome: &AttemptOutcome) -> (r: DemoStats)
    ensures
        r@ == StatsModel::single(size_bytes as nat, outcome is Success),
{
    let success = match outcome {
        AttemptOutcome::Success => true,
        _ => false,
    };
    DemoStats::new_single(size_bytes, success)
}

/// What came of the action that the walk asked for last.
#[derive(Debug)]
pub enum WalkEvent<P> {
    /// The entry's metadata: its kind and its length in bytes.
    Inspected { kind: EntryKind, size_bytes: u64 },
    /// The entries of the directory, in the order the file system gave them.
    Listed(Vec<P>),
    /// The file was read and parsed, or not.
    Attempted(AttemptOutcome),
    /// The metadata or the listing could not be had.
    EnumerationFailed,
}

/// What the walk asks for next.
#[derive(Debug)]
pub enum WalkAction<P> {
    /// Resolve this path's metadata and make it the current entry.
    Inspect(P),
    /// List the current entry, a directory.
    ListCurrent,
    /// Read and parse the current entry.
    AttemptCurrent,
    /// The walk is over; these are its totals.
    Finished(DemoStats),
    /// Enumeration failed: the walk is over, with no totals.
    Aborted,
}

/// Which answer the walk waits for.
#[derive(Clone, Copy, Debug, PartialEq, Eq, Structural)]
pub enum WalkPhase {
    Inspecting { root: bool },
    Listing,
    Attempting { size_bytes: u64 },
    Done,
}

/// `s` back to front.
pub open spec fn reversed<A>(s: Seq<A>) -> Seq<A> {
    Seq::new(s.len(), |i: int| s[s.len() - 1 - i])
}

/// A depth-first, pre-order walk of a directory tree, with an explicit stack
/// of the entries not yet inspected.
pub struct TreeWalk<P> {
    pending: Vec<P>,
    totals: DemoStats,
    phase: WalkPhase,
    /// How many entries the walk has routed to an attempt.
    found: Ghost<nat>,
}

/// Pushes `entries` so that the first of them is on top.
fn push_reversed<P>(stack: &mut Vec<P>, entries: Vec<P>)
    ensures
        final(stack)@ == old(stack)@ + reversed(entries@),
{
    let mut entries = entries;
    let ghost orig = entries@;
    let ghost base = stack@;
    while entries.len() > 0
        invariant
            entries@.len() <= orig.len(),
            entries@ == orig.subrange(0, entries@.len() as int),
            stack@ == base + reversed(orig.subrange(entries@.len() as int, orig.len() as int)),
        decreases entries@.len(),
    {
        let ghost k = entries@.len() as int;
        match entries.pop() {
            Some(e) => {
                proof {
                    assert(e == orig[k - 1]);
                    let tail = reversed(orig.subrange(k, orig.len() as int));
                    assert(reversed(orig.subrange(k - 1, orig.len() as int)) =~= tail.push(e));
                    assert((base + tail).push(e) =~= base + tail.push(e));
                }
                stack.push(e);
                proof {
                    assert(entries@ =~= orig.subrange(0, entries@.len() as int));
                }
            },
            None => {},
        }
    }
    proof {
        assert(orig.subrange(0, orig.len() as int) =~= orig);
    }
}

impl<P> TreeWalk<P> {
    /// The entries not yet inspected; the last is inspected next.
    pub closed spec fn pending(&self) -> Seq<P> {
        self.pending@
    }

    /// The statistics of the files attempted so far.
    pub closed spec fn totals(&self) -> StatsModel {
        self.totals@
    }

    pub closed spec fn phase(&self) -> WalkPhase {
        self.phase
    }

    /// How many entries the walk has routed to an attempt.
    pub closed spec fn found(&self) -> nat {
        self.found@
    }

    /// Every entry routed to an attempt is counted once its attempt is in.
    pub open spec fn wf(&self) -> bool {
        &&& self.totals().wf()
        &&& self.totals().attempted + (if self.phase() is Attempting {
            1nat
        } else {
            0nat
        }) == self.found()
    }

    /// Whether `event` answers the action that the walk asked for last, with
    /// room in the totals for one more file.
    pub open spec fn expects(&self, event: WalkEvent<P>) -> bool {
        match self.phase() {
            WalkPhase::Inspecting { .. } => event is Inspected || event is EnumerationFailed,
            WalkPhase::Listing => event is Listed || event is EnumerationFailed,
            WalkPhase::Attempting { size_bytes } => {
                &&& event is Attempted
                &&& self.totals().fits_with(StatsModel::single(size_bytes as nat, true))
            },
            WalkPhase::Done => false,
        }
    }

    /// `after` and `action` follow from a walk whose stack is `pending`
    /// taking its next entry, or finishing when there is none.
    pub open spec fn moves_on(pending: Seq<P>, after: TreeWalk<P>, action: WalkAction<P>) -> bool {
        if pending.len() > 0 {
            &&& after.pending() == pending.drop_last()
            &&& after.phase() == (WalkPhase::Inspecting { root: false })
            &&& action == WalkAction::Inspect(pending.last())
        } else {
            &&& after.pending() == pending
            &&& after.phase() == WalkPhase::Done
            &&& action matches WalkAction::Finished(s) && s@ == after.totals()
        }
    }

    /// One step of the walk: `after` and `action` follow from `before` on `event`.
    pub open spec fn transition(
        before: TreeWalk<P>,
        event: WalkEvent<P>,
        after: TreeWalk<P>,
        action: WalkAction<P>,
    ) -> bool {
        match event {
            WalkEvent::Inspected { kind, size_bytes } => {
                &&& after.totals() == before.totals()
                &&& match visit_of(kind, before.phase()->root) {
                    Visit::Descend => {
                        &&& after.pending() == before.pending()
                        &&& after.phase() == WalkPhase::Listing
                        &&& after.found() == before.found()
                        &&& action is ListCurrent
                    },
                    Visit::Attempt => {
                        &&& after.pending() == before.pending()
                        &&& after.phase() == (WalkPhase::Attempting { size_bytes })
                        &&& after.found() == before.found() + 1
                        &&& action is AttemptCurrent
                    },
                    Visit::Skip => {
                        &&& after.found() == before.found()
                        &&& Self::moves_on(before.pending(), after, action)
                    },
                }
            },
            WalkEvent::Listed(entries) => {
                &&& after.totals() == before.totals()
                &&& after.found() == before.found()
                &&& Self::moves_on(before.pending() + reversed(entries@), after, action)
            },
            WalkEvent::Attempted(outcome) => {
                &&& after.totals() == before.totals().merge(
                    StatsModel::single(before.phase()->size_bytes as nat, outcome is Success),
                )
                &&& after.found() == before.found()
                &&& Self::moves_on(before.pending(), after, action)
            },
            WalkEvent::EnumerationFailed => {
                &&& after.phase() == WalkPhase::Done
                &&& action is Aborted
            },
        }
    }

    /// A walk from `root`, which it asks to inspect first.
    pub fn start(root: P) -> (r: (TreeWalk<P>, WalkAction<P>))
        ensures
            r.0.wf(),
            r.0.pending() == Seq::<P>::empty(),
            r.0.totals() == StatsModel::zero(),
            r.0.phase() == (WalkPhase::Inspecting { root: true }),
            r.0.found() == 0,
            r.1 == WalkAction::Inspect(root),
    {
        let walk = TreeWalk {
            pending: Vec::new(),
            totals: DemoStats::new(),
            phase: WalkPhase::Inspecting { root: true },
            found: Ghost(0),
        };
        (walk, WalkAction::Inspect(root))
    }

    fn move_on(&mut self) -> (action: WalkAction<P>)
        requires
            old(self).wf(),
            !(old(self).phase() is Attempting),
        ensures
            final(self).wf(),
            final(self).totals() == old(self).totals(),
            final(self).found() == old(self).found(),
            Self::moves_on(old(self).pending(), *final(self), action),
    {
        match self.pending.pop() {
            Some(p) => {
                self.phase = WalkPhase::Inspecting { root: false };
                WalkAction::Inspect(p)
            },
            None => {
                self.phase = WalkPhase::Done;
                WalkAction::Finished(self.totals)
            },
        }
    }

    /// Whether `event` answers the last action, with room for its statistics.
    pub fn accepts(&self, event: &WalkEvent<P>) -> (r: bool)
        ensures
            r == self.expects(*event),
    {
        match self.phase {
            WalkPhase::Inspecting { .. } => match event {
                WalkEvent::Inspected { .. } => true,
                WalkEvent::EnumerationFailed => true,
                _ => false,
            },
            WalkPhase::Listing => match event {
                WalkEvent::Listed(_) => true,
                WalkEvent::EnumerationFailed => true,
                _ => false,
            },
            WalkPhase::Attempting { size_bytes } => match event {
                WalkEvent::Attempted(_) => self.totals.can_add(&DemoStats::new_single(size_bytes, true)),
                _ => false,
            },
            WalkPhase::Done => false,
        }
    }

    /// Takes what came of the last action and says what to do next.
    pub fn step(&mut self, event: WalkEvent<P>) -> (action: WalkAction<P>)
        requires
            old(self).wf(),
            old(self).expects(event),
        ensures
            final(self).wf(),
            Self::transition(*old(self), event, *final(self), action),
    {
        match event {
            WalkEvent::Inspected { kind, size_bytes } => {
                let is_root = match self.phase {
                    WalkPhase::Inspecting { root } => root,
                    _ => false,
                };
                match choose_visit(kind, is_root) {
                    Visit::Descend => {
                        self.phase = WalkPhase::Listing;
                        WalkAction::ListCurrent
                    },
                    Visit::Attempt => {
                        self.phase = WalkPhase::Attempting { size_bytes };
                        self.found = Ghost(self.found@ + 1);
                        WalkAction::AttemptCurrent
                    },
                    Visit::Skip => self.move_on(),
                }
            },
            WalkEvent::Listed(entries) => {
                push_reversed(&mut self.pending, entries);
                self.move_on()
            },
            WalkEvent::Attempted(outcome) => {
                let size_bytes = match self.phase {
                    WalkPhase::Attempting { size_bytes } => size_bytes,
                    _ => 0,
                };
                let single = attempt_stats(size_bytes, &outcome);
                self.totals.add(&single);
                self.phase = WalkPhase::Listing;
                self.move_on()
            },
            WalkEvent::EnumerationFailed => {
                self.phase = WalkPhase::Done;
                WalkAction::Aborted
            },
        }
    }
}

/// A finished walk has attempted each entry that it routed to an attempt
/// exactly once, and parsed no more files than it attempted.
pub proof fn lemma_finished_walk_counts<P>(walk: TreeWalk<P>)
    requires
        walk.wf(),
        walk.phase() == WalkPhase::Done,
    ensures
        walk.totals().attempted == walk.found(),
        walk.totals().parsed <= walk.totals().attempted,
{
}

} // verus!
