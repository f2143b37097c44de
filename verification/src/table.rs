//! The process table: which paths have a live process.
//!
//! The table holds one slot per path and never two for the same path. The
//! processes themselves belong to the operating system: each operation is
//! given the system's answer and records what follows from it.

use crate::error::{outcome_view, result_view, ErrorView, NexusError, StopFailure, StopFailureView};
use vstd::prelude::*;
use vstd::string::*;

verus! {

/// What became of one attempt to terminate a process.
#[derive(Debug, PartialEq, Eq)]
pub struct KillOutcome {
    /// The path whose process was to be terminated.
    pub path: String,
    /// The answer of the operating system: done, or the reason of its refusal.
    pub result: Result<(), String>,
}

/// What a `KillOutcome` holds, as mathematical values.
pub struct KillOutcomeView {
    pub path: Seq<char>,
    pub result: Result<(), Seq<char>>,
}

impl View for KillOutcome {
    type V = KillOutcomeView;

    open spec fn view(&self) -> KillOutcomeView {
        KillOutcomeView { path: self.path@, result: outcome_view(self.result) }
    }
}

impl DeepView for KillOutcome {
    type V = KillOutcomeView;

    open spec fn deep_view(&self) -> KillOutcomeView {
        self@
    }
}

/// What `spawn` returns: a tracked path is refused before the operating system
/// is asked, and otherwise the system's answer decides.
pub open spec fn spawn_result(
    running: Set<Seq<char>>,
    path: Seq<char>,
    started: Result<(), Seq<char>>,
) -> Result<(), ErrorView> {
    if running.contains(path) {
        Err(ErrorView::AlreadyRunning(path))
    } else {
        match started {
            Ok(_) => Ok(()),
            Err(reason) => Err(ErrorView::SpawnError { path, reason }),
        }
    }
}

/// What `kill` returns: an untracked path is refused, and otherwise the
/// system's answer decides.
pub open spec fn kill_result(
    running: Set<Seq<char>>,
    path: Seq<char>,
    killed: Result<(), Seq<char>>,
) -> Result<(), ErrorView> {
    if !running.contains(path) {
        Err(ErrorView::NotRunning(path))
    } else {
        match killed {
            Ok(_) => Ok(()),
            Err(reason) => Err(ErrorView::KillError { path, reason }),
        }
    }
}

/// The table without the paths in `exited`.
pub open spec fn without(running: Set<Seq<char>>, exited: Seq<Seq<char>>) -> Set<Seq<char>> {
    running.difference(exited.to_set())
}

/// The attempts of `kills` that the operating system refused, in order.
pub open spec fn failed_kills(kills: Seq<KillOutcomeView>) -> Seq<StopFailureView> {
    kills.filter(|k: KillOutcomeView| k.result is Err).map_values(
        |k: KillOutcomeView| StopFailureView { path: k.path, reason: k.result->Err_0 },
    )
}

/// The set of paths that currently have a live process.
#[derive(Debug)]
pub struct ProcessTable {
    paths: Vec<String>,
}

impl View for ProcessTable {
    type V = Set<Seq<char>>;

    closed spec fn view(&self) -> Set<Seq<char>> {
        self.paths.deep_view().to_set()
    }
}

proof fn lemma_push_path(paths: Seq<Seq<char>>, path: Seq<char>)
    requires
        paths.no_duplicates(),
        !paths.contains(path),
    ensures
        paths.push(path).no_duplicates(),
        paths.push(path).to_set() == paths.to_set().insert(path),
{
    assert(paths.push(path).to_set() =~= paths.to_set().insert(path)) by {
        assert forall|p: Seq<char>| paths.to_set().insert(path).contains(p) implies paths.push(
            path,
        ).to_set().contains(p) by {
            if p == path {
                assert(paths.push(path)[paths.len() as int] == path);
            } else {
                let i = choose|i: int| 0 <= i < paths.len() && paths[i] == p;
                assert(paths.push(path)[i] == p);
            }
        }
    }
}

proof fn lemma_remove_path(paths: Seq<Seq<char>>, i: int)
    requires
        paths.no_duplicates(),
        0 <= i < paths.len(),
    ensures
        paths.remove(i).no_duplicates(),
        paths.remove(i).to_set() == paths.to_set().remove(paths[i]),
{
    let rest = paths.remove(i);
    assert forall|a: int, b: int| 0 <= a < rest.len() && 0 <= b < rest.len() && a != b implies rest[a]
        != rest[b] by {
        let a0 = if a < i { a } else { a + 1 };
        let b0 = if b < i { b } else { b + 1 };
        assert(rest[a] == paths[a0] && rest[b] == paths[b0]);
    }
    assert(rest.to_set() =~= paths.to_set().remove(paths[i])) by {
        assert forall|p: Seq<char>| rest.to_set().contains(p) implies paths.to_set().remove(
            paths[i],
        ).contains(p) by {
            let a = choose|a: int| 0 <= a < rest.len() && rest[a] == p;
            let a0 = if a < i { a } else { a + 1 };
            assert(paths[a0] == p);
        }
        assert forall|p: Seq<char>| paths.to_set().remove(paths[i]).contains(p) implies rest.to_set().contains(
            p,
        ) by {
            let a0 = choose|a0: int| 0 <= a0 < paths.len() && paths[a0] == p;
            let a = if a0 < i { a0 } else { a0 - 1 };
            assert(rest[a] == p);
        }
    }
}

/// Appends `path` to a list that does not hold it yet.
fn push_path(paths: &mut Vec<String>, path: String)
    requires
        old(paths).deep_view().no_duplicates(),
        !old(paths).deep_view().contains(path@),
    ensures
        final(paths).deep_view().no_duplicates(),
        final(paths).deep_view().to_set() == old(paths).deep_view().to_set().insert(path@),
{
    paths.push(path);
    proof {
        assert(paths.deep_view() =~= old(paths).deep_view().push(path@));
        lemma_push_path(old(paths).deep_view(), path@);
    }
}

/// Takes the path at `i` out of the list.
fn take_path(paths: &mut Vec<String>, i: usize)
    requires
        old(paths).deep_view().no_duplicates(),
        i < old(paths).len(),
    ensures
        final(paths).deep_view().no_duplicates(),
        final(paths).deep_view().to_set() == old(paths).deep_view().to_set().remove(
            old(paths).deep_view()[i as int],
        ),
{
    paths.remove(i);
    proof {
        assert(paths.deep_view() =~= old(paths).deep_view().remove(i as int));
        lemma_remove_path(old(paths).deep_view(), i as int);
    }
}

/// Finds `path` in the list.
fn position(paths: &Vec<String>, path: &str) -> (r: Option<usize>)
    ensures
        match r {
            Some(i) => i < paths.len() && paths.deep_view()[i as int] == path@,
            None => !paths.deep_view().contains(path@),
        },
{
    let key = path.to_owned();
    let mut i: usize = 0;
    while i < paths.len()
        invariant
            i <= paths.len(),
            key@ == path@,
            forall|j: int| 0 <= j < i ==> (#[trigger] paths@[j])@ != path@,
        decreases paths.len() - i,
    {
        if paths[i] == key {
            return Some(i);
        }
        i = i + 1;
    }
    assert forall|j: int| 0 <= j < paths.deep_view().len() implies paths.deep_view()[j] != path@ by {
        assert(paths.deep_view()[j] == paths@[j]@);
    }
    None
}

impl ProcessTable {
    #[verifier::type_invariant]
    spec fn one_slot_per_path(self) -> bool {
        self.paths.deep_view().no_duplicates()
    }

    /// The number of tracked paths is finite.
    pub proof fn lemma_finite(&self)
        ensures
            self@.finite(),
    {
        vstd::seq_lib::seq_to_set_is_finite(self.paths.deep_view());
    }

    /// An empty table.
    pub fn new() -> (r: ProcessTable)
        ensures
            r@ == Set::<Seq<char>>::empty(),
    {
        let r = ProcessTable { paths: Vec::new() };
        assert(r@ =~= Set::<Seq<char>>::empty());
        r
    }

    /// Tells whether `path` has a live process.
    pub fn contains(&self, path: &str) -> (r: bool)
        ensures
            r == self@.contains(path@),
    {
        position(&self.paths, path).is_some()
    }

    /// The number of live processes.
    pub fn len(&self) -> (r: usize)
        ensures
            self@.finite(),
            r == self@.len(),
    {
        proof {
            use_type_invariant(self);
            self.paths.deep_view().unique_seq_to_set();
            vstd::seq_lib::seq_to_set_is_finite(self.paths.deep_view());
        }
        self.paths.len()
    }

    /// Records an attempt to start a process for `path`. A path that is already
    /// tracked is refused whatever `started` holds; otherwise `started` is the
    /// answer of the operating system, and the path is added where the process
    /// started.
    pub fn spawn(&mut self, path: &str, started: Result<(), String>) -> (r: Result<(), NexusError>)
        ensures
            result_view(r) == spawn_result(old(self)@, path@, outcome_view(started)),
            r is Ok ==> final(self)@ == old(self)@.insert(path@),
            r is Err ==> final(self)@ == old(self)@,
    {
        proof {
            use_type_invariant(&*self);
        }
        if position(&self.paths, path).is_some() {
            return Err(NexusError::AlreadyRunning(path.to_owned()));
        }
        match started {
            Ok(_) => {
                let mut paths: Vec<String> = Vec::new();
                core::mem::swap(&mut self.paths, &mut paths);
                push_path(&mut paths, path.to_owned());
                core::mem::swap(&mut self.paths, &mut paths);
                Ok(())
            },
            Err(reason) => Err(NexusError::SpawnError { path: path.to_owned(), reason }),
        }
    }

    /// Records an attempt to terminate the process of `path`. An untracked path
    /// is refused whatever `killed` holds; otherwise `killed` is the answer of
    /// the operating system, and the path leaves the table whether or not the
    /// system refused.
    pub fn kill(&mut self, path: &str, killed: Result<(), String>) -> (r: Result<(), NexusError>)
        ensures
            result_view(r) == kill_result(old(self)@, path@, outcome_view(killed)),
            final(self)@ == old(self)@.remove(path@),
    {
        proof {
            use_type_invariant(&*self);
        }
        match position(&self.paths, path) {
            None => {
                assert(self@ =~= old(self)@.remove(path@));
                Err(NexusError::NotRunning(path.to_owned()))
            },
            Some(i) => {
                let mut paths: Vec<String> = Vec::new();
                core::mem::swap(&mut self.paths, &mut paths);
                take_path(&mut paths, i);
                core::mem::swap(&mut self.paths, &mut paths);
                match killed {
                    Ok(_) => Ok(()),
                    Err(reason) => Err(NexusError::KillError { path: path.to_owned(), reason }),
                }
            },
        }
    }

    /// Forgets `path`, whether or not it was tracked; tells whether it was.
    pub fn forget(&mut self, path: &str) -> (r: bool)
        ensures
            r == old(self)@.contains(path@),
            final(self)@ == old(self)@.remove(path@),
    {
        proof {
            use_type_invariant(&*self);
        }
        match position(&self.paths, path) {
            None => {
                assert(self@ =~= old(self)@.remove(path@));
                false
            },
            Some(i) => {
                let mut paths: Vec<String> = Vec::new();
                core::mem::swap(&mut self.paths, &mut paths);
                take_path(&mut paths, i);
                core::mem::swap(&mut self.paths, &mut paths);
                true
            },
        }
    }

    /// Records that the processes of the paths in `exited` have ended: each of
    /// them leaves the table, and nothing else changes.
    pub fn poll_exited(&mut self, exited: &[String])
        ensures
            final(self)@ == without(old(self)@, exited.deep_view()),
    {
        let mut i: usize = 0;
        while i < exited.len()
            invariant
                i <= exited.len(),
                self@ == without(old(self)@, exited.deep_view().take(i as int)),
            decreases exited.len() - i,
        {
            self.forget(exited[i].as_str());
            proof {
                let seen = exited.deep_view().take(i as int);
                let next = exited.deep_view().take(i + 1);
                assert(next =~= seen.push(exited[i as int]@));
                assert(next.to_set() =~= seen.to_set().insert(exited[i as int]@)) by {
                    assert forall|p: Seq<char>| next.to_set().contains(p) implies seen.to_set().insert(
                        exited[i as int]@,
                    ).contains(p) by {
                        let a = choose|a: int| 0 <= a < next.len() && next[a] == p;
                        if a < i {
                            assert(seen[a] == p);
                        }
                    }
                    assert forall|p: Seq<char>|
                        seen.to_set().insert(exited[i as int]@).contains(p) implies next.to_set().contains(
                        p,
                    ) by {
                        if p == exited[i as int]@ {
                            assert(next[i as int] == p);
                        } else {
                            let a = choose|a: int| 0 <= a < seen.len() && seen[a] == p;
                            assert(next[a] == p);
                        }
                    }
                }
                assert(self@ =~= without(old(self)@, next));
            }
            i = i + 1;
        }
        assert(exited.deep_view().take(i as int) =~= exited.deep_view());
    }

    /// Records an attempt to terminate every process: the table is empty
    /// afterwards whatever the operating system answered, and the refused
    /// attempts among `kills` are returned in order.
    pub fn kill_all(&mut self, kills: &[KillOutcome]) -> (r: Vec<StopFailure>)
        ensures
            final(self)@ == Set::<Seq<char>>::empty(),
            r.deep_view() == failed_kills(kills.deep_view()),
    {
        self.paths = Vec::new();
        assert(self@ =~= Set::<Seq<char>>::empty());
        let mut failures: Vec<StopFailure> = Vec::new();
        let mut i: usize = 0;
        proof {
            reveal(Seq::filter);
            assert(kills.deep_view().take(0).len() == 0);
            assert(failures.deep_view() =~= failed_kills(kills.deep_view().take(0)));
        }
        while i < kills.len()
            invariant
                i <= kills.len(),
                failures.deep_view() == failed_kills(kills.deep_view().take(i as int)),
            decreases kills.len() - i,
        {
            proof {
                reveal(Seq::filter);
                let next = kills.deep_view().take(i + 1);
                assert(next.drop_last() =~= kills.deep_view().take(i as int));
                assert(next.last() == kills[i as int]@);
            }
            let ghost before = failures.deep_view();
            match &kills[i].result {
                Ok(_) => {},
                Err(reason) => {
                    failures.push(StopFailure { path: kills[i].path.clone(), reason: reason.clone() });
                    assert(failures.deep_view() =~= before.push(
                        StopFailureView { path: kills[i as int]@.path, reason: kills[i as int]@.result->Err_0 },
                    ));
                },
            }
            assert(failures.deep_view() =~= failed_kills(kills.deep_view().take(i + 1)));
            i = i + 1;
        }
        assert(kills.deep_view().take(i as int) =~= kills.deep_view());
        failures
    }
}

} // verus!
