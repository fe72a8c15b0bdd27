//! The state of a workspace across update runs. A workspace is clean at a
//! version, or part way through an update committed package by package
//! (which a later run with the same goal resumes), or broken.
use vstd::prelude::*;

use crate::utils::{Root, Stable, State};

verus! {

/// Where a workspace stands. A workspace that holds nothing yet is clean at
/// the empty version.
#[derive(Debug, Clone, PartialEq)]
pub enum WorkspaceState {
    Clean { version: String },
    Updating { from: String, to: String, step: usize, total: usize },
    Broken,
}

/// The mathematical content of a [`WorkspaceState`].
pub enum Workspace {
    Clean { version: Seq<char> },
    Updating { from: Seq<char>, to: Seq<char>, step: nat, total: nat },
    Broken,
}

impl View for WorkspaceState {
    type V = Workspace;

    open spec fn view(&self) -> Workspace {
        match self {
            WorkspaceState::Clean { version } => Workspace::Clean { version: version@ },
            WorkspaceState::Updating { from, to, step, total } => Workspace::Updating {
                from: from@,
                to: to@,
                step: *step as nat,
                total: *total as nat,
            },
            WorkspaceState::Broken => Workspace::Broken,
        }
    }
}

/// Whether a workspace is in a state it can be at rest in: an update in
/// flight has committed no more packages than it has.
pub open spec fn at_rest(w: Workspace) -> bool {
    match w {
        Workspace::Updating { step, total, .. } => step < total,
        _ => true,
    }
}

/// The state an update run toward `goal`, over a path of `total` packages,
/// starts from. A clean workspace already at the goal stays as it is, and so
/// does a path of no packages that reaches it; an interrupted update toward
/// the same goal is resumed where it stopped; any other workspace starts the
/// path from its first package.
pub open spec fn begin(w: Workspace, goal: Seq<char>, total: nat) -> Workspace {
    match w {
        Workspace::Clean { version } => if version == goal || total == 0 {
            Workspace::Clean { version: goal }
        } else {
            Workspace::Updating { from: version, to: goal, step: 0, total }
        },
        Workspace::Updating { from, to, step, total: t } => if to == goal {
            w
        } else if total == 0 {
            Workspace::Clean { version: goal }
        } else {
            Workspace::Updating { from, to: goal, step: 0, total }
        },
        Workspace::Broken => if total == 0 {
            Workspace::Clean { version: goal }
        } else {
            Workspace::Updating { from: Seq::empty(), to: goal, step: 0, total }
        },
    }
}

/// The state after one more package of the update in flight is committed;
/// the last one leaves the workspace clean at the goal.
pub open spec fn commit(w: Workspace) -> Workspace {
    match w {
        Workspace::Updating { from, to, step, total } => if step + 1 >= total {
            Workspace::Clean { version: to }
        } else {
            Workspace::Updating { from, to, step: step + 1, total }
        },
        _ => w,
    }
}

/// The state after `n` more packages are committed.
pub open spec fn commit_n(w: Workspace, n: nat) -> Workspace
    decreases n,
{
    if n == 0 {
        w
    } else {
        commit_n(commit(w), (n - 1) as nat)
    }
}

/// The version the state file reports as stable.
pub open spec fn stable_of(w: Workspace) -> Option<Seq<char>> {
    match w {
        Workspace::Clean { version } => Some(version),
        _ => None,
    }
}

impl WorkspaceState {
    /// Starts an update run toward `goal` over a path of `total` packages
    /// (see [`begin`]).
    pub fn begin(self, goal: &str, total: usize) -> (r: WorkspaceState)
        ensures
            r@ == begin(self@, goal@, total as nat),
    {
        match self {
            WorkspaceState::Clean { version } => {
                if version == String::from_str(goal) || total == 0 {
                    WorkspaceState::Clean { version: String::from_str(goal) }
                } else {
                    WorkspaceState::Updating { from: version, to: String::from_str(goal), step: 0, total }
                }
            },
            WorkspaceState::Updating { from, to, step, total: t } => {
                if to == String::from_str(goal) {
                    WorkspaceState::Updating { from, to, step, total: t }
                } else if total == 0 {
                    WorkspaceState::Clean { version: String::from_str(goal) }
                } else {
                    WorkspaceState::Updating { from, to: String::from_str(goal), step: 0, total }
                }
            },
            WorkspaceState::Broken => {
                if total == 0 {
                    WorkspaceState::Clean { version: String::from_str(goal) }
                } else {
                    WorkspaceState::Updating { from: String::new(), to: String::from_str(goal), step: 0, total }
                }
            },
        }
    }

    /// Records that one more package of the update in flight was committed
    /// (see [`commit`]).
    pub fn commit(self) -> (r: WorkspaceState)
        ensures
            r@ == commit(self@),
            at_rest(r@) || r@ == self@,
    {
        match self {
            WorkspaceState::Updating { from, to, step, total } => {
                if step >= total || total - step == 1 {
                    WorkspaceState::Clean { version: to }
                } else {
                    WorkspaceState::Updating { from, to, step: step + 1, total }
                }
            },
            other => other,
        }
    }

    /// Records that the update in flight has committed its first `done`
    /// packages: commits the ones not yet recorded, if any.
    pub fn commit_through(self, done: usize) -> (r: WorkspaceState)
        ensures
            r@ == match self@ {
                Workspace::Updating { step, .. } => if done > step {
                    commit_n(self@, (done - step) as nat)
                } else {
                    self@
                },
                _ => self@,
            },
    {
        let start: usize = match &self {
            WorkspaceState::Updating { step, .. } => *step,
            _ => done,
        };
        if done <= start {
            return self;
        }
        let ghost first = self@;
        let mut state = self;
        let mut k: usize = start;
        while k < done
            invariant
                start <= k <= done,
                first is Updating,
                first->Updating_step == start,
                state@ == commit_n(first, (k - start) as nat),
            decreases done - k,
        {
            proof {
                lemma_commit_n_add(first, (k - start) as nat, 1);
                assert(commit_n(state@, 1) == commit(state@)) by {
                    assert(commit_n(commit(state@), 0) == commit(state@));
                }
                assert((k - start) as nat + 1 == (k + 1 - start) as nat);
            }
            state = state.commit();
            k += 1;
        }
        state
    }

    /// Records a corruption the update cannot recover from.
    pub fn corrupted(self) -> (r: WorkspaceState)
        ensures
            r@ == Workspace::Broken,
    {
        WorkspaceState::Broken
    }

    /// Whether the update in flight, if any, is done: the workspace is clean.
    pub fn is_clean(&self) -> (r: bool)
        ensures
            r == (self@ is Clean),
    {
        match self {
            WorkspaceState::Clean { .. } => true,
            _ => false,
        }
    }

    /// The state file of the workspace: the stable version of a clean
    /// workspace; none while an update is in flight or the workspace is
    /// broken.
    pub fn state_file(&self) -> (r: Option<Root>)
        ensures
            r is Some <==> stable_of(self@) is Some,
            r is Some ==> r->Some_0.state.stable.version@ == stable_of(self@)->Some_0,
    {
        match self {
            WorkspaceState::Clean { version } => Some(
                Root { state: State { stable: Stable { version: version.clone() } } },
            ),
            _ => None,
        }
    }
}

proof fn lemma_commit_n_add(w: Workspace, a: nat, b: nat)
    ensures
        commit_n(commit_n(w, a), b) == commit_n(w, a + b),
    decreases a,
{
    if a > 0 {
        lemma_commit_n_add(commit(w), (a - 1) as nat, b);
        assert((a - 1) as nat + b == (a + b - 1) as nat);
    }
}

proof fn lemma_commit_n_finishes(from: Seq<char>, to: Seq<char>, step: nat, total: nat)
    requires
        step < total,
    ensures
        commit_n((Workspace::Updating { from, to, step, total }), (total - step) as nat) == (Workspace::Clean {
            version: to,
        }),
    decreases total - step,
{
    let w = Workspace::Updating { from, to, step, total };
    let n = (total - step) as nat;
    assert(commit_n(w, n) == commit_n(commit(w), (n - 1) as nat));
    if step + 1 < total {
        lemma_commit_n_finishes(from, to, step + 1, total);
        assert((n - 1) as nat == (total - (step + 1)) as nat);
    } else {
        assert(commit(w) == (Workspace::Clean { version: to }));
        assert(commit_n(commit(w), 0) == commit(w));
    }
}

proof fn lemma_clean_stays(v: Seq<char>, n: nat)
    ensures
        commit_n((Workspace::Clean { version: v }), n) == (Workspace::Clean { version: v }),
    decreases n,
{
    if n > 0 {
        lemma_clean_stays(v, (n - 1) as nat);
    }
}

/// A run toward `goal` that commits every package of its path leaves the
/// workspace clean at `goal`, so its state file reports `goal` as the stable
/// version, whatever state the workspace was in before.
pub proof fn lemma_update_reaches_goal(w: Workspace, goal: Seq<char>, total: nat)
    requires
        at_rest(w),
        !(w is Updating && w->Updating_to == goal),
    ensures
        commit_n(begin(w, goal, total), total) == (Workspace::Clean { version: goal }),
        stable_of(commit_n(begin(w, goal, total), total)) == Some(goal),
{
    let b = begin(w, goal, total);
    match b {
        Workspace::Updating { from, to, step, total: t } => {
            lemma_commit_n_finishes(from, to, 0, total);
        },
        _ => {
            lemma_clean_stays(goal, total);
        },
    }
}

/// An update toward `goal` that is cancelled after `k` of its packages and
/// then run again toward the same goal over the same path ends in the same
/// state as the uninterrupted run: clean at `goal`.
pub proof fn lemma_cancel_and_resume(w: Workspace, goal: Seq<char>, total: nat, k: nat)
    requires
        at_rest(w),
        !(w is Updating && w->Updating_to == goal),
        k <= total,
    ensures
        commit_n(begin(commit_n(begin(w, goal, total), k), goal, total), (total - k) as nat)
            == commit_n(begin(w, goal, total), total),
{
    let b = begin(w, goal, total);
    let mid = commit_n(b, k);
    lemma_update_reaches_goal(w, goal, total);
    match b {
        Workspace::Updating { from, to, step, total: t } => {
            if k < total {
                lemma_commit_n_steps(from, to, 0, total, k);
                assert(begin(mid, goal, total) == mid);
                lemma_commit_n_add(b, k, (total - k) as nat);
            } else {
                lemma_commit_n_finishes(from, to, 0, total);
                assert(begin(mid, goal, total) == Workspace::Clean { version: goal });
                lemma_clean_stays(goal, 0);
            }
        },
        _ => {
            lemma_clean_stays(goal, k);
            lemma_clean_stays(goal, (total - k) as nat);
        },
    }
}

proof fn lemma_commit_n_steps(from: Seq<char>, to: Seq<char>, step: nat, total: nat, k: nat)
    requires
        step + k < total,
    ensures
        commit_n((Workspace::Updating { from, to, step, total }), k) == (Workspace::Updating {
            from,
            to,
            step: step + k,
            total,
        }),
    decreases k,
{
    if k > 0 {
        lemma_commit_n_steps(from, to, step + 1, total, (k - 1) as nat);
        assert(step + 1 + (k - 1) as nat == step + k);
    }
}

} // verus!
