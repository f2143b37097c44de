//! The supervisor: the entry list and the process table, changed together.
//!
//! The supervisor neither starts nor ends a process and touches no file. The
//! caller asks the operating system and hands in its answer: `started` of
//! `launch_exe` is consulted only where the path has no live process yet,
//! `killed` of `stop_exe` only where it has one. An answer that is not
//! consulted changes nothing, so a caller that skipped the question may pass
//! any value.

use crate::error::{outcome_view, result_view, ErrorView, NexusError};
use crate::store::{
    all_stopped, cached_running, find_entry, has_entry, is_first, set_running, startup_paths,
    stop_entries, with_exited, with_running, Executable, ExecutableView,
};
use crate::table::{
    failed_kills, kill_result, spawn_result, without, KillOutcome, KillOutcomeView, ProcessTable,
};
use crate::text::{blank, is_blank};
use vstd::prelude::*;
use vstd::string::*;

verus! {

/// What reading the backing file gave.
#[derive(Debug, Clone, PartialEq, Eq)]
pub enum StoreFile {
    /// There is no file yet.
    Missing,
    /// The file is there and could not be read; the reason.
    Unreadable(String),
    /// The file was read and does not hold an entry list; the reason.
    Corrupt(String),
    /// The entries that the file holds, in order.
    Entries(Vec<Executable>),
}

/// What a `StoreFile` holds, as mathematical values.
pub enum StoreFileView {
    Missing,
    Unreadable(Seq<char>),
    Corrupt(Seq<char>),
    Entries(Seq<ExecutableView>),
}

impl View for StoreFile {
    type V = StoreFileView;

    open spec fn view(&self) -> StoreFileView {
        match *self {
            StoreFile::Missing => StoreFileView::Missing,
            StoreFile::Unreadable(reason) => StoreFileView::Unreadable(reason@),
            StoreFile::Corrupt(reason) => StoreFileView::Corrupt(reason@),
            StoreFile::Entries(entries) => StoreFileView::Entries(entries.deep_view()),
        }
    }
}

/// The entry list after loading `file` over `current`: a missing file leaves
/// the list as it is, a file with entries replaces it, with no entry running,
/// and any other file is an error.
pub open spec fn load_entries(current: Seq<ExecutableView>, file: StoreFileView) -> Result<
    Seq<ExecutableView>,
    ErrorView,
> {
    match file {
        StoreFileView::Missing => Ok(current),
        StoreFileView::Unreadable(reason) => Err(
            ErrorView::PersistenceError("Failed to read exe list: "@ + reason),
        ),
        StoreFileView::Corrupt(reason) => Err(
            ErrorView::PersistenceError("Failed to parse exe list: "@ + reason),
        ),
        StoreFileView::Entries(entries) => Ok(all_stopped(entries)),
    }
}

/// What writing the backing file comes to: nothing, or a persistence error
/// that carries the reason.
pub open spec fn save_outcome(written: Result<(), Seq<char>>) -> Result<(), ErrorView> {
    match written {
        Ok(_) => Ok(()),
        Err(reason) => Err(ErrorView::PersistenceError("Failed to save exe list: "@ + reason)),
    }
}

/// One launch: the path, and what the operating system answers when asked to
/// start it.
pub struct LaunchAttempt {
    pub path: Seq<char>,
    pub started: Result<(), Seq<char>>,
}

/// The launches that pair each of `paths` with the answer at the same place of
/// `started`, as far as both reach.
pub open spec fn attempts_of(paths: Seq<Seq<char>>, started: Seq<Result<(), String>>) -> Seq<
    LaunchAttempt,
> {
    Seq::new(
        if paths.len() <= started.len() {
            paths.len()
        } else {
            started.len()
        },
        |i: int| LaunchAttempt { path: paths[i], started: outcome_view(started[i]) },
    )
}

/// The state of the supervisor, as mathematical values.
pub struct ManagerView {
    /// The entries, in the order in which they were added.
    pub executables: Seq<ExecutableView>,
    /// The paths that have a live process.
    pub running: Set<Seq<char>>,
}

impl ManagerView {
    /// A supervisor is valid when it tracks finitely many processes.
    pub open spec fn wf(self) -> bool {
        self.running.finite()
    }

    /// `path` counts as running when its cached flag is set or a process for
    /// it is tracked.
    pub open spec fn is_running(self, path: Seq<char>) -> bool {
        cached_running(self.executables, path) || self.running.contains(path)
    }

    /// The number of tracked processes.
    pub open spec fn running_count(self) -> nat {
        self.running.len()
    }

    /// What `add_exe` returns: whether an entry was appended, or the refusal of
    /// a blank path.
    pub open spec fn add_result(self, path: Seq<char>) -> Result<bool, ErrorView> {
        if is_blank(path) {
            Err(ErrorView::InvalidInput)
        } else {
            Ok(!has_entry(self.executables, path))
        }
    }

    /// The state after `add_exe`: a new entry at the end where the path is
    /// neither blank nor present, and the same state otherwise.
    pub open spec fn after_add(self, path: Seq<char>) -> ManagerView {
        if is_blank(path) || has_entry(self.executables, path) {
            self
        } else {
            ManagerView { executables: self.executables.push(ExecutableView::fresh(path)), ..self }
        }
    }

    /// What `remove_exe` returns: the entry that left, or the refusal of an
    /// index past the end.
    pub open spec fn remove_result(self, index: nat) -> Result<ExecutableView, ErrorView> {
        if index < self.executables.len() {
            Ok(self.executables[index as int])
        } else {
            Err(ErrorView::IndexOutOfRange { index, len: self.executables.len() })
        }
    }

    /// The state after `remove_exe`: the entry at `index` is gone and its path
    /// is no longer tracked.
    pub open spec fn after_remove(self, index: nat) -> ManagerView {
        if index < self.executables.len() {
            ManagerView {
                executables: self.executables.remove(index as int),
                running: self.running.remove(self.executables[index as int].path),
            }
        } else {
            self
        }
    }

    /// What `set_auto_launch` returns.
    pub open spec fn set_auto_launch_result(self, index: nat) -> Result<(), ErrorView> {
        if index < self.executables.len() {
            Ok(())
        } else {
            Err(ErrorView::IndexOutOfRange { index, len: self.executables.len() })
        }
    }

    /// The state after `set_auto_launch`.
    pub open spec fn after_set_auto_launch(self, index: nat, value: bool) -> ManagerView {
        if index < self.executables.len() {
            ManagerView {
                executables: self.executables.update(
                    index as int,
                    self.executables[index as int].auto_launch(value),
                ),
                ..self
            }
        } else {
            self
        }
    }

    /// What `launch_exe` returns.
    pub open spec fn launch_result(self, path: Seq<char>, started: Result<(), Seq<char>>) -> Result<
        (),
        ErrorView,
    > {
        spawn_result(self.running, path, started)
    }

    /// The state after `launch_exe`: nothing changes for a path that is
    /// tracked already; a process that started is tracked and its entry flagged
    /// as running; one that did not start leaves its entry flagged as not
    /// running.
    pub open spec fn after_launch(
        self,
        path: Seq<char>,
        started: Result<(), Seq<char>>,
    ) -> ManagerView {
        if self.running.contains(path) {
            self
        } else if started is Ok {
            ManagerView {
                executables: with_running(self.executables, path, true),
                running: self.running.insert(path),
            }
        } else {
            ManagerView { executables: with_running(self.executables, path, false), ..self }
        }
    }

    /// The state after launching each of `attempts` in turn, whatever the
    /// launches before it returned.
    pub open spec fn after_launches(self, attempts: Seq<LaunchAttempt>) -> ManagerView
        decreases attempts.len(),
    {
        if attempts.len() == 0 {
            self
        } else {
            self.after_launches(attempts.drop_last()).after_launch(
                attempts.last().path,
                attempts.last().started,
            )
        }
    }

    /// The errors of the launches of `attempts` that failed, in order.
    pub open spec fn launch_failures(self, attempts: Seq<LaunchAttempt>) -> Seq<ErrorView>
        decreases attempts.len(),
    {
        if attempts.len() == 0 {
            Seq::empty()
        } else {
            let earlier = self.launch_failures(attempts.drop_last());
            match self.after_launches(attempts.drop_last()).launch_result(
                attempts.last().path,
                attempts.last().started,
            ) {
                Ok(_) => earlier,
                Err(error) => earlier.push(error),
            }
        }
    }

    /// What `stop_exe` returns.
    pub open spec fn stop_result(self, path: Seq<char>, killed: Result<(), Seq<char>>) -> Result<
        (),
        ErrorView,
    > {
        kill_result(self.running, path, killed)
    }

    /// The state after `stop_exe`, whatever it returned: the entry is flagged
    /// as not running and the path is not tracked.
    pub open spec fn after_stop(self, path: Seq<char>) -> ManagerView {
        ManagerView {
            executables: with_running(self.executables, path, false),
            running: self.running.remove(path),
        }
    }

    /// The state after `cleanup_finished_processes`: the paths in `exited` are
    /// not tracked and their entries are flagged as not running.
    pub open spec fn after_cleanup(self, exited: Seq<Seq<char>>) -> ManagerView {
        ManagerView {
            executables: with_exited(self.executables, exited),
            running: without(self.running, exited),
        }
    }

    /// What `stop_all` returns: the refused attempts as one error, or nothing
    /// where none was refused.
    pub open spec fn stop_all_result(kills: Seq<KillOutcomeView>) -> Result<(), ErrorView> {
        if failed_kills(kills).len() == 0 {
            Ok(())
        } else {
            Err(ErrorView::PartialStopFailure(failed_kills(kills)))
        }
    }

    /// The state after `stop_all`, whatever it returned: no entry is flagged as
    /// running and no path is tracked.
    pub open spec fn after_stop_all(self) -> ManagerView {
        ManagerView { executables: all_stopped(self.executables), running: Set::empty() }
    }
}

/// The supervisor: an ordered list of entries and the table of their live
/// processes.
#[derive(Debug)]
pub struct ExeManager {
    running_processes: ProcessTable,
    executables: Vec<Executable>,
}

impl View for ExeManager {
    type V = ManagerView;

    closed spec fn view(&self) -> ManagerView {
        ManagerView {
            executables: self.executables.deep_view(),
            running: self.running_processes@,
        }
    }
}

/// A copy of `entries` in which no entry is running: what is written to the
/// backing file.
fn stopped_copy(entries: &Vec<Executable>) -> (r: Vec<Executable>)
    ensures
        r.deep_view() == all_stopped(entries.deep_view()),
{
    let mut copy: Vec<Executable> = Vec::new();
    let mut i: usize = 0;
    while i < entries.len()
        invariant
            i <= entries.len(),
            copy.len() == i,
            forall|j: int| 0 <= j < i ==> (#[trigger] copy@[j])@ == entries@[j]@.running(false),
        decreases entries.len() - i,
    {
        copy.push(
            Executable {
                path: entries[i].path.clone(),
                launch_on_startup: entries[i].launch_on_startup,
                is_running: false,
            },
        );
        i = i + 1;
    }
    assert(copy.deep_view() =~= all_stopped(entries.deep_view()));
    copy
}

/// Turns the outcome of writing the backing file into the result of saving.
pub fn save_result(written: Result<(), String>) -> (r: Result<(), NexusError>)
    ensures
        result_view(r) == save_outcome(outcome_view(written)),
{
    match written {
        Ok(_) => Ok(()),
        Err(reason) => Err(
            NexusError::PersistenceError(
                String::from_str("Failed to save exe list: ").concat(reason.as_str()),
            ),
        ),
    }
}

impl ExeManager {
    /// Every state of a supervisor is valid.
    pub proof fn lemma_wf(&self)
        ensures
            self@.wf(),
    {
        self.running_processes.lemma_finite();
    }

    /// A supervisor with the entries that `file` holds and no live process.
    /// A missing file gives an empty list; a file that could not be read or
    /// decoded is an error.
    pub fn new(file: StoreFile) -> (r: Result<ExeManager, NexusError>)
        ensures
            match r {
                Ok(manager) => load_entries(Seq::empty(), file@) == Ok::<
                    Seq<ExecutableView>,
                    ErrorView,
                >(manager@.executables) && manager@.running == Set::<Seq<char>>::empty(),
                Err(error) => load_entries(Seq::empty(), file@) == Err::<
                    Seq<ExecutableView>,
                    ErrorView,
                >(error@),
            },
    {
        let mut manager = ExeManager {
            running_processes: ProcessTable::new(),
            executables: Vec::new(),
        };
        assert(manager@.executables =~= Seq::empty());
        match manager.load_exe_list(file) {
            Ok(_) => Ok(manager),
            Err(error) => Err(error),
        }
    }

    /// Loads `file` over the entry list. On an error nothing changes.
    fn load_exe_list(&mut self, file: StoreFile) -> (r: Result<(), NexusError>)
        ensures
            final(self)@.running == old(self)@.running,
            match r {
                Ok(_) => load_entries(old(self)@.executables, file@) == Ok::<
                    Seq<ExecutableView>,
                    ErrorView,
                >(final(self)@.executables),
                Err(error) => load_entries(old(self)@.executables, file@) == Err::<
                    Seq<ExecutableView>,
                    ErrorView,
                >(error@) && final(self)@ == old(self)@,
            },
    {
        match file {
            StoreFile::Missing => Ok(()),
            StoreFile::Unreadable(reason) => Err(
                NexusError::PersistenceError(
                    String::from_str("Failed to read exe list: ").concat(reason.as_str()),
                ),
            ),
            StoreFile::Corrupt(reason) => Err(
                NexusError::PersistenceError(
                    String::from_str("Failed to parse exe list: ").concat(reason.as_str()),
                ),
            ),
            StoreFile::Entries(entries) => {
                let mut entries = entries;
                stop_entries(&mut entries);
                self.executables = entries;
                Ok(())
            },
        }
    }

    /// The entries as they are written to the backing file: in order, each
    /// with its path and its startup flag, and none of them running.
    pub fn save_exe_list(&self) -> (r: Vec<Executable>)
        ensures
            r.deep_view() == all_stopped(self@.executables),
    {
        stopped_copy(&self.executables)
    }

    /// The entries, in the order in which they were added.
    pub fn executables(&self) -> (r: &Vec<Executable>)
        ensures
            r.deep_view() == self@.executables,
    {
        &self.executables
    }

    /// Adds an entry for `path` at the end of the list. A blank path is
    /// refused; a path that is already present is left alone. Returns whether
    /// an entry was appended, that is whether the list has to be saved.
    pub fn add_exe(&mut self, path: String) -> (r: Result<bool, NexusError>)
        ensures
            final(self)@ == old(self)@.after_add(path@),
            match r {
                Ok(appended) => old(self)@.add_result(path@) == Ok::<bool, ErrorView>(appended),
                Err(error) => old(self)@.add_result(path@) == Err::<bool, ErrorView>(error@),
            },
    {
        if blank(path.as_str()) {
            return Err(NexusError::InvalidInput);
        }
        if find_entry(&self.executables, path.as_str()).is_some() {
            return Ok(false);
        }
        self.executables.push(Executable { path, launch_on_startup: false, is_running: false });
        assert(self@.executables =~= old(self)@.executables.push(ExecutableView::fresh(path@)));
        Ok(true)
    }

    /// Removes the entry at `index` and stops tracking the process of its
    /// path. Returns the entry that left: whoever holds a process for its path
    /// terminates it, and the removal stands whether or not that succeeds.
    pub fn remove_exe(&mut self, index: usize) -> (r: Result<Executable, NexusError>)
        ensures
            final(self)@ == old(self)@.after_remove(index as nat),
            match r {
                Ok(entry) => old(self)@.remove_result(index as nat) == Ok::<
                    ExecutableView,
                    ErrorView,
                >(entry@),
                Err(error) => old(self)@.remove_result(index as nat) == Err::<
                    ExecutableView,
                    ErrorView,
                >(error@),
            },
    {
        if index >= self.executables.len() {
            return Err(NexusError::IndexOutOfRange { index, len: self.executables.len() });
        }
        let entry = self.executables.remove(index);
        self.running_processes.forget(entry.path.as_str());
        assert(self@.executables =~= old(self)@.executables.remove(index as int));
        Ok(entry)
    }

    /// Sets the startup flag of the entry at `index`.
    pub fn set_auto_launch(&mut self, index: usize, value: bool) -> (r: Result<(), NexusError>)
        ensures
            final(self)@ == old(self)@.after_set_auto_launch(index as nat, value),
            result_view(r) == old(self)@.set_auto_launch_result(index as nat),
    {
        if index >= self.executables.len() {
            return Err(NexusError::IndexOutOfRange { index, len: self.executables.len() });
        }
        self.executables[index].launch_on_startup = value;
        assert(self@.executables =~= old(self)@.executables.update(
            index as int,
            old(self)@.executables[index as int].auto_launch(value),
        ));
        Ok(())
    }

    /// The startup flag of the entry at `index`, to read or to set in place:
    /// what the caller writes through it is what `set_auto_launch` would set.
    pub fn launch_on_startup(&mut self, index: usize) -> (r: &mut bool)
        requires
            index < old(self)@.executables.len(),
        ensures
            *r == old(self)@.executables[index as int].launch_on_startup,
            final(self)@.running == old(self)@.running,
            final(self)@.executables =~= old(self)@.after_set_auto_launch(
                index as nat,
                *final(r),
            ).executables,
    {
        &mut self.executables[index].launch_on_startup
    }

    /// Tells whether a process for `path` is tracked.
    pub fn has_process(&self, path: &str) -> (r: bool)
        ensures
            r == self@.running.contains(path@),
    {
        self.running_processes.contains(path)
    }

    /// Records a launch of `path`. A path with a tracked process is refused
    /// and nothing changes. Otherwise `started` is what the operating system
    /// answered when asked to start the process: on success the path is
    /// tracked and its entry, if there is one, flagged as running; on a
    /// refusal the entry is flagged as not running.
    pub fn launch_exe(&mut self, path: &str, started: Result<(), String>) -> (r: Result<
        (),
        NexusError,
    >)
        ensures
            final(self)@ == old(self)@.after_launch(path@, outcome_view(started)),
            result_view(r) == old(self)@.launch_result(path@, outcome_view(started)),
    {
        let known = self.running_processes.contains(path);
        let r = self.running_processes.spawn(path, started);
        if !known {
            set_running(&mut self.executables, path, r.is_ok());
        }
        r
    }

    /// The paths that the startup policy launches: those of the entries that
    /// are flagged for it and not running, in the order of the entries.
    pub fn startup_paths(&self) -> (r: Vec<String>)
        ensures
            r.deep_view() == startup_paths(self@.executables),
    {
        let entries = &self.executables;
        let mut paths: Vec<String> = Vec::new();
        let mut i: usize = 0;
        proof {
            reveal(Seq::filter);
            assert(entries.deep_view().take(0).len() == 0);
            assert(paths.deep_view() =~= startup_paths(entries.deep_view().take(0)));
        }
        while i < entries.len()
            invariant
                i <= entries.len(),
                paths.deep_view() == startup_paths(entries.deep_view().take(i as int)),
            decreases entries.len() - i,
        {
            proof {
                reveal(Seq::filter);
                let next = entries.deep_view().take(i + 1);
                assert(next.drop_last() =~= entries.deep_view().take(i as int));
                assert(next.last() == entries[i as int]@);
            }
            let ghost before = paths.deep_view();
            if entries[i].launch_on_startup && !entries[i].is_running {
                paths.push(entries[i].path.clone());
                assert(paths.deep_view() =~= before.push(entries[i as int]@.path));
            }
            assert(paths.deep_view() =~= startup_paths(entries.deep_view().take(i + 1)));
            i = i + 1;
        }
        assert(entries.deep_view().take(i as int) =~= entries.deep_view());
        paths
    }

    /// Records a launch of each of `paths` in turn, with the answer at the same
    /// place of `started`, as far as both reach. A launch that fails does not
    /// keep the later ones from being recorded; the errors are returned in
    /// order.
    pub fn launch_each(&mut self, paths: &[String], started: &[Result<(), String>]) -> (r: Vec<
        NexusError,
    >)
        ensures
            final(self)@ == old(self)@.after_launches(attempts_of(paths.deep_view(), started@)),
            r.deep_view() == old(self)@.launch_failures(attempts_of(paths.deep_view(), started@)),
    {
        let ghost attempts = attempts_of(paths.deep_view(), started@);
        let mut failures: Vec<NexusError> = Vec::new();
        let mut i: usize = 0;
        assert(failures.deep_view() =~= old(self)@.launch_failures(attempts.take(0)));
        while i < paths.len() && i < started.len()
            invariant
                i <= paths.len(),
                i <= started.len(),
                attempts == attempts_of(paths.deep_view(), started@),
                self@ == old(self)@.after_launches(attempts.take(i as int)),
                failures.deep_view() == old(self)@.launch_failures(attempts.take(i as int)),
            decreases paths.len() - i,
        {
            proof {
                let next = attempts.take(i + 1);
                assert(next.drop_last() =~= attempts.take(i as int));
                assert(next.last() == attempts[i as int]);
            }
            let answer = match &started[i] {
                Ok(_) => Ok(()),
                Err(reason) => Err(reason.clone()),
            };
            let ghost before = failures.deep_view();
            match self.launch_exe(paths[i].as_str(), answer) {
                Ok(_) => {},
                Err(error) => {
                    failures.push(error);
                    assert(failures.deep_view() =~= before.push(error@));
                },
            }
            i = i + 1;
        }
        assert(attempts.take(i as int) =~= attempts);
        failures
    }

    /// Records a stop of `path`. The entry is flagged as not running first, so
    /// that no outcome leaves it flagged. A path without a tracked process is
    /// refused. Otherwise `killed` is what the operating system answered when
    /// asked to terminate the process, and the path is no longer tracked
    /// whether or not the system refused.
    pub fn stop_exe(&mut self, path: &str, killed: Result<(), String>) -> (r: Result<
        (),
        NexusError,
    >)
        ensures
            final(self)@ == old(self)@.after_stop(path@),
            result_view(r) == old(self)@.stop_result(path@, outcome_view(killed)),
    {
        set_running(&mut self.executables, path, false);
        self.running_processes.kill(path, killed)
    }

    /// Records that the processes of the paths in `exited` have ended by
    /// themselves: they are no longer tracked, and their entries are flagged as
    /// not running. An empty list changes nothing.
    pub fn cleanup_finished_processes(&mut self, exited: &[String])
        ensures
            final(self)@ == old(self)@.after_cleanup(exited.deep_view()),
    {
        self.running_processes.poll_exited(exited);
        let mut i: usize = 0;
        assert(self.executables.deep_view() =~= with_exited(
            old(self)@.executables,
            exited.deep_view().take(0),
        ));
        while i < exited.len()
            invariant
                i <= exited.len(),
                self.running_processes@ == without(old(self)@.running, exited.deep_view()),
                self.executables.deep_view() == with_exited(
                    old(self)@.executables,
                    exited.deep_view().take(i as int),
                ),
            decreases exited.len() - i,
        {
            let ghost before = self.executables.deep_view();
            set_running(&mut self.executables, exited[i].as_str(), false);
            proof {
                let first = old(self)@.executables;
                let seen = exited.deep_view().take(i as int);
                let next = exited.deep_view().take(i + 1);
                let path = exited[i as int]@;
                assert(next =~= seen.push(path));
                assert forall|j: int| 0 <= j < first.len() implies #[trigger] before[j].path
                    == first[j].path by {}
                assert forall|j: int, p: Seq<char>|
                    is_first(before, j, p) == is_first(
                        first,
                        j,
                        p,
                    ) by {
                    if is_first(before, j, p) {
                        assert forall|k: int| 0 <= k < j implies (#[trigger] first[k]).path != p by {
                            assert(before[k].path == first[k].path);
                        }
                    }
                    if is_first(first, j, p) {
                        assert forall|k: int| 0 <= k < j implies (#[trigger] before[k]).path
                            != p by {
                            assert(before[k].path == first[k].path);
                        }
                    }
                }
                assert forall|p: Seq<char>| next.contains(p) == (seen.contains(p) || p == path) by {
                    if next.contains(p) {
                        let a = choose|a: int| 0 <= a < next.len() && next[a] == p;
                        if a < seen.len() {
                            assert(seen[a] == p);
                        }
                    }
                    if seen.contains(p) {
                        let a = choose|a: int| 0 <= a < seen.len() && seen[a] == p;
                        assert(next[a] == p);
                    }
                    if p == path {
                        assert(next[seen.len() as int] == p);
                    }
                }
                assert(self.executables.deep_view() =~= with_exited(first, next));
            }
            i = i + 1;
        }
        assert(exited.deep_view().take(i as int) =~= exited.deep_view());
    }

    /// Tells whether `path` counts as running: its entry is flagged as running,
    /// or a process for it is tracked.
    pub fn is_running(&self, path: &str) -> (r: bool)
        ensures
            r == self@.is_running(path@),
    {
        match find_entry(&self.executables, path) {
            Some(i) => {
                if self.executables[i].is_running {
                    return true;
                }
                assert(!cached_running(self@.executables, path@)) by {
                    assert forall|j: int|
                        is_first(self@.executables, j, path@) implies j == i by {}
                }
            },
            None => {},
        }
        self.running_processes.contains(path)
    }

    /// Records a stop of every process. Each entry is flagged as not running
    /// and no path is tracked afterwards, whatever the operating system
    /// answered; `kills` holds its answers, one for each process that was to be
    /// terminated, and those that it refused are returned as one error.
    pub fn stop_all(&mut self, kills: &[KillOutcome]) -> (r: Result<(), NexusError>)
        ensures
            final(self)@ == old(self)@.after_stop_all(),
            result_view(r) == ManagerView::stop_all_result(kills.deep_view()),
    {
        stop_entries(&mut self.executables);
        let failures = self.running_processes.kill_all(kills);
        if failures.len() > 0 {
            Err(NexusError::PartialStopFailure(failures))
        } else {
            Ok(())
        }
    }

    /// The number of tracked processes.
    pub fn running_count(&self) -> (r: usize)
        ensures
            r == self@.running_count(),
    {
        self.running_processes.len()
    }
}

} // verus!
