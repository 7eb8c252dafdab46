use vstd::prelude::*;

use crate::stats::StatsModel;
use crate::walk::{reversed, visit_of, EntryKind, TreeWalk, Visit, WalkAction, WalkEvent, WalkPhase};

verus! {

/// A file-system tree as the walk sees it.
pub enum FsNode {
    Directory { entries: Seq<FsNode> },
    RegularFile { size: u64 },
    Other,
}

/// The number of regular files in `n`, `n` itself included.
pub open spec fn regular_files(n: FsNode) -> nat
    decreases n, 0int,
{
    match n {
        FsNode::Directory { entries } => files_in_prefix(entries, entries.len() as int),
        FsNode::RegularFile { .. } => 1,
        FsNode::Other => 0,
    }
}

/// The number of regular files in the first `k` trees of `s`.
pub open spec fn files_in_prefix(s: Seq<FsNode>, k: int) -> nat
    decreases s, k,
{
    if k <= 0 || k > s.len() {
        0
    } else {
        files_in_prefix(s, k - 1) + regular_files(s[k - 1])
    }
}

/// The number of regular files in the trees of `s`.
pub open spec fn forest_files(s: Seq<FsNode>) -> nat {
    files_in_prefix(s, s.len() as int)
}

proof fn lemma_prefix_same(a: Seq<FsNode>, b: Seq<FsNode>, k: int)
    requires
        0 <= k <= a.len(),
        k <= b.len(),
        forall|i: int| 0 <= i < k ==> a[i] == b[i],
    ensures
        files_in_prefix(a, k) == files_in_prefix(b, k),
    decreases k,
{
    if k > 0 {
        lemma_prefix_same(a, b, k - 1);
    }
}

proof fn lemma_forest_push(s: Seq<FsNode>, x: FsNode)
    ensures
        forest_files(s.push(x)) == forest_files(s) + regular_files(x),
{
    lemma_prefix_same(s.push(x), s, s.len() as int);
}

proof fn lemma_forest_concat(s: Seq<FsNode>, t: Seq<FsNode>)
    ensures
        forest_files(s + t) == forest_files(s) + forest_files(t),
    decreases t.len(),
{
    if t.len() == 0 {
        assert(s + t =~= s);
    } else {
        let u = t.drop_last();
        lemma_forest_concat(s, u);
        assert(s + t =~= (s + u).push(t.last()));
        assert(t =~= u.push(t.last()));
        lemma_forest_push(s + u, t.last());
        lemma_forest_push(u, t.last());
    }
}

proof fn lemma_forest_reversed(s: Seq<FsNode>)
    ensures
        forest_files(reversed(s)) == forest_files(s),
    decreases s.len(),
{
    if s.len() > 0 {
        let u = s.drop_last();
        lemma_forest_reversed(u);
        assert(reversed(s) =~= seq![s.last()] + reversed(u));
        assert(s =~= u.push(s.last()));
        lemma_forest_concat(seq![s.last()], reversed(u));
        lemma_forest_push(u, s.last());
        lemma_forest_push(Seq::<FsNode>::empty(), s.last());
        assert(Seq::<FsNode>::empty().push(s.last()) =~= seq![s.last()]);
    }
}

/// What the file system reports `n` to be.
pub open spec fn kind_of(n: FsNode) -> EntryKind {
    match n {
        FsNode::Directory { .. } => EntryKind::Directory,
        FsNode::RegularFile { .. } => EntryKind::RegularFile,
        FsNode::Other => EntryKind::Other,
    }
}

/// The length that the file system reports for `n`.
pub open spec fn size_of(n: FsNode) -> u64 {
    match n {
        FsNode::RegularFile { size } => size,
        _ => 0,
    }
}

/// `event` is what a file system that holds the trees answers to
/// `actions[i]`: the true metadata of an inspected tree, the entries of a
/// listed directory in order, and some outcome for an attempted file.
pub open spec fn answers(actions: Seq<WalkAction<FsNode>>, i: int, event: WalkEvent<FsNode>) -> bool {
    match actions[i] {
        WalkAction::Inspect(n) => event == (WalkEvent::<FsNode>::Inspected {
            kind: kind_of(n),
            size_bytes: size_of(n),
        }),
        WalkAction::ListCurrent => {
            &&& i >= 1
            &&& actions[i - 1] matches WalkAction::Inspect(n)
            &&& n matches FsNode::Directory { entries }
            &&& event matches WalkEvent::Listed(v)
            &&& v@ == entries
        },
        WalkAction::AttemptCurrent => event is Attempted,
        _ => false,
    }
}

/// The regular files in the tree that the walk is working on at step `i`
/// and has not yet routed to an attempt.
pub open spec fn current_files(w: TreeWalk<FsNode>, actions: Seq<WalkAction<FsNode>>, i: int) -> nat {
    match w.phase() {
        WalkPhase::Inspecting { .. } => match actions[i] {
            WalkAction::Inspect(n) => regular_files(n),
            _ => 0,
        },
        WalkPhase::Listing => match actions[i - 1] {
            WalkAction::Inspect(n) => regular_files(n),
            _ => 0,
        },
        _ => 0,
    }
}

/// What holds of the walk at each step of a run on a true file system.
pub open spec fn run_invariant(root: FsNode, w: TreeWalk<FsNode>, actions: Seq<WalkAction<FsNode>>, i: int) -> bool {
    &&& w.phase() is Inspecting <==> actions[i] is Inspect
    &&& w.phase() is Attempting <==> actions[i] is AttemptCurrent
    &&& w.phase() is Listing <==> actions[i] is ListCurrent
    &&& w.phase() == (WalkPhase::Inspecting { root: true }) ==> actions[i] == WalkAction::Inspect(root)
    &&& w.phase() is Listing ==> {
        &&& i >= 1
        &&& actions[i - 1] matches WalkAction::Inspect(n)
        &&& n is Directory
    }
    &&& actions[i] matches WalkAction::Finished(s) ==> {
        &&& w.pending().len() == 0
        &&& s@ == w.totals()
        &&& w.phase() == WalkPhase::Done
    }
    &&& w.found() + forest_files(w.pending()) + current_files(w, actions, i) == regular_files(root)
    &&& w.totals().attempted + (if w.phase() is Attempting { 1nat } else { 0nat }) == w.found()
    &&& w.totals().wf()
}

/// A run of the walk from `root` on a file system that answers truly.
pub open spec fn is_true_run(
    root: FsNode,
    states: Seq<TreeWalk<FsNode>>,
    events: Seq<WalkEvent<FsNode>>,
    actions: Seq<WalkAction<FsNode>>,
) -> bool {
    &&& states.len() == actions.len()
    &&& states.len() == events.len() + 1
    &&& states[0].pending() == Seq::<FsNode>::empty()
    &&& states[0].totals() == StatsModel::zero()
    &&& states[0].phase() == (WalkPhase::Inspecting { root: true })
    &&& states[0].found() == 0
    &&& actions[0] == WalkAction::Inspect(root)
    &&& forall|i: int| #![trigger events[i]] 0 <= i < events.len() ==> {
        &&& answers(actions, i, events[i])
        &&& TreeWalk::transition(states[i], events[i], states[i + 1], actions[i + 1])
    }
}

proof fn lemma_moves_on(
    before: Seq<FsNode>,
    w: TreeWalk<FsNode>,
    actions: Seq<WalkAction<FsNode>>,
    i: int,
)
    requires
        0 <= i < actions.len(),
        TreeWalk::moves_on(before, w, actions[i]),
    ensures
        forest_files(w.pending()) + current_files(w, actions, i) == forest_files(before),
        w.phase() is Inspecting <==> actions[i] is Inspect,
        !(w.phase() is Attempting),
        !(w.phase() is Listing),
        !(actions[i] is AttemptCurrent),
        !(actions[i] is ListCurrent),
        w.phase() != (WalkPhase::Inspecting { root: true }),
        actions[i] matches WalkAction::Finished(s) ==> {
            &&& w.pending().len() == 0
            &&& s@ == w.totals()
            &&& w.phase() == WalkPhase::Done
        },
{
    if before.len() > 0 {
        assert(before =~= before.drop_last().push(before.last()));
        lemma_forest_push(before.drop_last(), before.last());
    }
}

proof fn lemma_run_invariant(
    root: FsNode,
    states: Seq<TreeWalk<FsNode>>,
    events: Seq<WalkEvent<FsNode>>,
    actions: Seq<WalkAction<FsNode>>,
    i: int,
)
    requires
        !(root is Other),
        is_true_run(root, states, events, actions),
        0 <= i < states.len(),
    ensures
        run_invariant(root, states[i], actions, i),
    decreases i,
{
    if i > 0 {
        let j = i - 1;
        lemma_run_invariant(root, states, events, actions, j);
        let before = states[j];
        let after = states[i];
        let event = events[j];
        assert(answers(actions, j, event));
        assert(TreeWalk::transition(before, event, after, actions[i]));
        match actions[j] {
            WalkAction::Inspect(n) => {
                let root_flag = before.phase()->root;
                if root_flag {
                    assert(n == root);
                }
                match visit_of(kind_of(n), root_flag) {
                    Visit::Descend => {},
                    Visit::Attempt => {},
                    Visit::Skip => {
                        lemma_moves_on(before.pending(), after, actions, i);
                    },
                }
            },
            WalkAction::ListCurrent => {
                let n = actions[j - 1]->Inspect_0;
                let entries = n->entries;
                let stack = before.pending() + reversed(entries);
                lemma_forest_concat(before.pending(), reversed(entries));
                lemma_forest_reversed(entries);
                lemma_moves_on(stack, after, actions, i);
            },
            WalkAction::AttemptCurrent => {
                lemma_moves_on(before.pending(), after, actions, i);
            },
            _ => {},
        }
    }
}

/// A walk run to its end on a file system that answers truly attempts every
/// regular file of the tree once: the totals it finishes with count as many
/// files attempted as the tree holds, and no more parsed than attempted.
/// A root that is neither a directory nor a regular file is left out: the
/// walk attempts it, though it holds no regular file.
pub proof fn lemma_walk_attempts_every_regular_file(
    root: FsNode,
    states: Seq<TreeWalk<FsNode>>,
    events: Seq<WalkEvent<FsNode>>,
    actions: Seq<WalkAction<FsNode>>,
)
    requires
        !(root is Other),
        is_true_run(root, states, events, actions),
        actions.last() is Finished,
    ensures
        actions.last() matches WalkAction::Finished(s) && s@.attempted == regular_files(root)
            && s@.parsed <= s@.attempted,
{
    lemma_run_invariant(root, states, events, actions, states.len() - 1);
}

} // verus!
