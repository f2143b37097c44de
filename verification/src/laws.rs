//! Laws of the supervisor: what holds across its operations.
//!
//! Each law is stated over the mathematical state of the supervisor and the
//! functions by which the operations' contracts describe their results, so it
//! holds of every run of the operations themselves.

use crate::error::ErrorView;
use crate::manager::{load_entries, LaunchAttempt, ManagerView, StoreFileView};
use crate::store::{
    all_stopped, cached_running, has_entry, holds_once, is_first, none_running, startup_paths,
    wants_startup, with_exited, with_running, ExecutableView,
};
use crate::error::StopFailureView;
use crate::table::{failed_kills, without, KillOutcomeView};
use crate::text::is_blank;
use vstd::prelude::*;

verus! {

/// Setting the running flag of a path to `false` leaves the path with a
/// cleared cached flag.
pub proof fn lemma_cleared_flag(entries: Seq<ExecutableView>, path: Seq<char>)
    ensures
        !cached_running(with_running(entries, path, false), path),
{
    let after = with_running(entries, path, false);
    assert forall|i: int| is_first(after, i, path) implies !(#[trigger] after[i]).is_running by {
        assert forall|j: int| 0 <= j < i implies (#[trigger] entries[j]).path != path by {
            assert(after[j].path == entries[j].path);
        }
        assert(is_first(entries, i, path));
    }
}

/// Saving and loading give the entry list back. What is saved holds every
/// entry in order with its path and its startup flag and none of them
/// running; loading it yields just that list. Where no entry is running, it
/// is the list itself.
pub proof fn law_saved_list_reloads(m: ManagerView, current: Seq<ExecutableView>)
    ensures
        load_entries(current, StoreFileView::Entries(all_stopped(m.executables))) == Ok::<
            Seq<ExecutableView>,
            ErrorView,
        >(all_stopped(m.executables)),
        all_stopped(m.executables).len() == m.executables.len(),
        forall|i: int|
            0 <= i < m.executables.len() ==> (#[trigger] all_stopped(m.executables)[i])
                == m.executables[i].running(false),
        none_running(m.executables) ==> all_stopped(m.executables) == m.executables,
{
    let saved = all_stopped(m.executables);
    assert(all_stopped(saved) =~= saved);
    if none_running(m.executables) {
        assert(saved =~= m.executables);
    }
}

/// Adding and removing entries never flags an entry as running: after any
/// such step on a list in which no entry is running, what is saved is the
/// list in memory.
pub proof fn law_add_remove_keep_entries_stopped(m: ManagerView, path: Seq<char>, index: nat)
    requires
        none_running(m.executables),
    ensures
        none_running(m.after_add(path).executables),
        none_running(m.after_remove(index).executables),
        all_stopped(m.after_add(path).executables) == m.after_add(path).executables,
        all_stopped(m.after_remove(index).executables) == m.after_remove(index).executables,
{
    assert(all_stopped(m.after_add(path).executables) =~= m.after_add(path).executables);
    assert(all_stopped(m.after_remove(index).executables) =~= m.after_remove(index).executables);
}

/// A freshly loaded list has no entry flagged as running.
pub proof fn law_loaded_entries_are_stopped(current: Seq<ExecutableView>, file: StoreFileView)
    requires
        none_running(current),
    ensures
        load_entries(current, file) matches Ok(entries) ==> none_running(entries),
{
}

/// A blank path is refused and the state stays as it is.
pub proof fn law_blank_path_is_refused(m: ManagerView, path: Seq<char>)
    requires
        is_blank(path),
    ensures
        m.add_result(path) == Err::<bool, ErrorView>(ErrorView::InvalidInput),
        m.after_add(path) == m,
{
}

/// Adding a path twice is the same as adding it once: the second call appends
/// nothing and changes nothing. Where the path was absent before, or present
/// once, it is present exactly once afterwards.
pub proof fn law_add_is_idempotent(m: ManagerView, path: Seq<char>)
    requires
        !is_blank(path),
    ensures
        has_entry(m.after_add(path).executables, path),
        m.after_add(path).add_result(path) == Ok::<bool, ErrorView>(false),
        m.after_add(path).after_add(path) == m.after_add(path),
        !has_entry(m.executables, path) || holds_once(m.executables, path) ==> holds_once(
            m.after_add(path).executables,
            path,
        ),
{
    let once = m.after_add(path).executables;
    if !has_entry(m.executables, path) {
        let last = m.executables.len() as int;
        assert(once[last].path == path);
        assert forall|j: int| 0 <= j < once.len() && j != last implies (#[trigger] once[j]).path
            != path by {
            assert(once[j] == m.executables[j]);
        }
    }
}

/// A launch that succeeded is not repeated: a second launch of the same path
/// is refused as already running whatever the operating system would answer,
/// and changes nothing. The path is tracked once: the table grew by one.
pub proof fn law_second_launch_is_refused(
    m: ManagerView,
    path: Seq<char>,
    first: Result<(), Seq<char>>,
    second: Result<(), Seq<char>>,
)
    requires
        m.wf(),
        m.launch_result(path, first) is Ok,
    ensures
        m.after_launch(path, first).launch_result(path, second) == Err::<(), ErrorView>(
            ErrorView::AlreadyRunning(path),
        ),
        m.after_launch(path, first).after_launch(path, second) == m.after_launch(path, first),
        m.after_launch(path, first).running.contains(path),
        m.after_launch(path, first).running_count() == m.running_count() + 1,
        m.after_launch(path, first).is_running(path),
{
}

/// A path with a tracked process counts as running, whatever its cached flag
/// says.
pub proof fn law_tracked_path_is_running(m: ManagerView, path: Seq<char>)
    requires
        m.running.contains(path),
    ensures
        m.is_running(path),
{
}

/// A launch of one path never ends the tracking of another.
pub proof fn law_launch_keeps_processes(
    m: ManagerView,
    path: Seq<char>,
    started: Result<(), Seq<char>>,
    other: Seq<char>,
)
    requires
        m.running.contains(other),
    ensures
        m.after_launch(path, started).running.contains(other),
{
}

/// A run of launches goes on after a failure: every path whose launch the
/// operating system accepted is tracked and counts as running at the end of
/// the run, whatever became of the launches before and after it.
pub proof fn law_launches_go_on_after_failures(
    m: ManagerView,
    attempts: Seq<LaunchAttempt>,
    i: int,
)
    requires
        0 <= i < attempts.len(),
        attempts[i].started is Ok,
    ensures
        m.after_launches(attempts).running.contains(attempts[i].path),
        m.after_launches(attempts).is_running(attempts[i].path),
    decreases attempts.len(),
{
    let earlier = attempts.drop_last();
    let last = attempts.last();
    if i < attempts.len() - 1 {
        assert(earlier[i] == attempts[i]);
        law_launches_go_on_after_failures(m, earlier, i);
        law_launch_keeps_processes(
            m.after_launches(earlier),
            last.path,
            last.started,
            attempts[i].path,
        );
    }
}

/// The startup paths of a list are those of the list without its last entry,
/// and the path of the last one where it is to be launched.
pub proof fn lemma_startup_paths_step(entries: Seq<ExecutableView>)
    requires
        entries.len() > 0,
    ensures
        startup_paths(entries) == if wants_startup(entries.last()) {
            startup_paths(entries.drop_last()).push(entries.last().path)
        } else {
            startup_paths(entries.drop_last())
        },
{
    reveal(Seq::filter);
    if wants_startup(entries.last()) {
        assert(startup_paths(entries) =~= startup_paths(entries.drop_last()).push(
            entries.last().path,
        ));
    }
}

/// The startup policy launches exactly the entries that ask for it: a path is
/// launched if and only if some entry with this path is flagged for startup
/// and not running.
pub proof fn law_startup_launches_the_flagged_entries(
    entries: Seq<ExecutableView>,
    path: Seq<char>,
)
    ensures
        startup_paths(entries).contains(path) <==> exists|i: int|
            0 <= i < entries.len() && (#[trigger] entries[i]).path == path && wants_startup(
                entries[i],
            ),
    decreases entries.len(),
{
    if entries.len() == 0 {
        reveal(Seq::filter);
        assert(startup_paths(entries).len() == 0);
    } else {
        let earlier = entries.drop_last();
        lemma_startup_paths_step(entries);
        law_startup_launches_the_flagged_entries(earlier, path);
        if startup_paths(entries).contains(path) {
            let j = choose|j: int|
                0 <= j < startup_paths(entries).len() && startup_paths(entries)[j] == path;
            if j < startup_paths(earlier).len() {
                assert(startup_paths(earlier)[j] == path);
                let i = choose|i: int|
                    0 <= i < earlier.len() && (#[trigger] earlier[i]).path == path
                        && wants_startup(earlier[i]);
                assert(entries[i] == earlier[i]);
            } else {
                assert(entries[entries.len() - 1].path == path);
            }
        }
        if exists|i: int|
            0 <= i < entries.len() && (#[trigger] entries[i]).path == path && wants_startup(
                entries[i],
            ) {
            let i = choose|i: int|
                0 <= i < entries.len() && (#[trigger] entries[i]).path == path && wants_startup(
                    entries[i],
                );
            if i < earlier.len() {
                assert(earlier[i] == entries[i]);
                let j = choose|j: int|
                    0 <= j < startup_paths(earlier).len() && startup_paths(earlier)[j] == path;
                assert(startup_paths(entries)[j] == path);
            } else {
                assert(startup_paths(entries)[startup_paths(entries).len() - 1] == path);
            }
        }
    }
}

/// A launch that the operating system refuses leaves the path not running:
/// the error carries the system's reason, no process is tracked for the path,
/// and its entry is flagged as not running.
pub proof fn law_failed_launch_is_not_running(m: ManagerView, path: Seq<char>, reason: Seq<char>)
    requires
        !m.running.contains(path),
    ensures
        m.launch_result(path, Err(reason)) == Err::<(), ErrorView>(
            ErrorView::SpawnError { path, reason },
        ),
        m.after_launch(path, Err(reason)).running == m.running,
        !m.after_launch(path, Err(reason)).is_running(path),
{
    lemma_cleared_flag(m.executables, path);
}

/// After a stop the path is not running, whatever the stop returned. Where no
/// process was tracked for the path, the stop is refused as not running.
pub proof fn law_stop_leaves_path_stopped(
    m: ManagerView,
    path: Seq<char>,
    killed: Result<(), Seq<char>>,
)
    ensures
        !m.after_stop(path).is_running(path),
        !m.running.contains(path) ==> m.stop_result(path, killed) == Err::<(), ErrorView>(
            ErrorView::NotRunning(path),
        ),
        m.running.contains(path) && killed is Ok ==> m.stop_result(path, killed) is Ok,
{
    lemma_cleared_flag(m.executables, path);
}

/// Stopping all leaves nothing running, whatever the operating system
/// answered: no process is tracked and no path counts as running.
pub proof fn law_stop_all_stops_everything(m: ManagerView, path: Seq<char>)
    ensures
        m.after_stop_all().running_count() == 0,
        !m.after_stop_all().is_running(path),
        none_running(m.after_stop_all().executables),
{
}

/// The refused attempts of a list are those of the list without its last
/// attempt, and the last one where it was refused.
pub proof fn lemma_failed_kills_step(kills: Seq<KillOutcomeView>)
    requires
        kills.len() > 0,
    ensures
        failed_kills(kills) == if kills.last().result is Err {
            failed_kills(kills.drop_last()).push(
                StopFailureView { path: kills.last().path, reason: kills.last().result->Err_0 },
            )
        } else {
            failed_kills(kills.drop_last())
        },
{
    reveal(Seq::filter);
    if kills.last().result is Err {
        assert(failed_kills(kills) =~= failed_kills(kills.drop_last()).push(
            StopFailureView { path: kills.last().path, reason: kills.last().result->Err_0 },
        ));
    }
}

/// Stopping all reports exactly the attempts that the operating system
/// refused: it succeeds if and only if none was refused, and a path is listed
/// with a reason if and only if an attempt for this path was refused with this
/// reason.
pub proof fn law_stop_all_reports_the_refused_kills(
    kills: Seq<KillOutcomeView>,
    failure: StopFailureView,
)
    ensures
        ManagerView::stop_all_result(kills) is Ok <==> forall|i: int|
            0 <= i < kills.len() ==> (#[trigger] kills[i]).result is Ok,
        ManagerView::stop_all_result(kills) is Err ==> ManagerView::stop_all_result(kills)
            == Err::<(), ErrorView>(ErrorView::PartialStopFailure(failed_kills(kills))),
        failed_kills(kills).contains(failure) <==> exists|i: int|
            0 <= i < kills.len() && (#[trigger] kills[i]).path == failure.path && kills[i].result
                == Err::<(), Seq<char>>(failure.reason),
    decreases kills.len(),
{
    if kills.len() == 0 {
        reveal(Seq::filter);
        assert(failed_kills(kills).len() == 0);
    } else {
        let earlier = kills.drop_last();
        let last = kills.last();
        let last_failure = StopFailureView { path: last.path, reason: last.result->Err_0 };
        lemma_failed_kills_step(kills);
        law_stop_all_reports_the_refused_kills(earlier, failure);
        assert forall|i: int| 0 <= i < earlier.len() implies #[trigger] earlier[i] == kills[i] by {}
        if failed_kills(earlier).len() == 0 && last.result is Ok {
            assert forall|i: int| 0 <= i < kills.len() implies (#[trigger] kills[i]).result is Ok by {
                if i < earlier.len() {
                    assert(earlier[i].result is Ok);
                }
            }
        }
        if failed_kills(earlier).len() > 0 {
            let i = choose|i: int| 0 <= i < earlier.len() && !((#[trigger] earlier[i]).result is Ok);
            assert(!(kills[i].result is Ok));
        }
        if last.result is Err {
            assert(!(kills[kills.len() - 1].result is Ok));
            assert(failed_kills(kills).last() == last_failure);
        }
        if failed_kills(kills).contains(failure) {
            let j = choose|j: int| 0 <= j < failed_kills(kills).len() && failed_kills(kills)[j] == failure;
            if j < failed_kills(earlier).len() {
                assert(failed_kills(earlier)[j] == failure);
                let i = choose|i: int|
                    0 <= i < earlier.len() && (#[trigger] earlier[i]).path == failure.path
                        && earlier[i].result == Err::<(), Seq<char>>(failure.reason);
                assert(kills[i] == earlier[i]);
            } else {
                assert(kills[kills.len() - 1].path == failure.path);
            }
        }
        if exists|i: int|
            0 <= i < kills.len() && (#[trigger] kills[i]).path == failure.path && kills[i].result
                == Err::<(), Seq<char>>(failure.reason) {
            let i = choose|i: int|
                0 <= i < kills.len() && (#[trigger] kills[i]).path == failure.path
                    && kills[i].result == Err::<(), Seq<char>>(failure.reason);
            if i < earlier.len() {
                assert(earlier[i] == kills[i]);
                assert(failed_kills(earlier).contains(failure));
                let j = choose|j: int|
                    0 <= j < failed_kills(earlier).len() && failed_kills(earlier)[j] == failure;
                assert(failed_kills(kills)[j] == failure);
            } else {
                assert(failed_kills(kills)[failed_kills(kills).len() - 1] == failure);
            }
        }
    }
}

/// A process that ended by itself still counts as running until the cleanup
/// is told of it: the supervisor learns of an exit only there. Once told, the
/// path is not running, and where the cleanup is told of this path alone, the
/// number of tracked processes drops by one.
pub proof fn law_exit_shows_after_cleanup(m: ManagerView, path: Seq<char>, exited: Seq<Seq<char>>)
    requires
        m.wf(),
        m.running.contains(path),
        exited.contains(path),
    ensures
        m.is_running(path),
        !m.after_cleanup(exited).is_running(path),
        exited == seq![path] ==> m.after_cleanup(exited).running_count() == m.running_count() - 1,
{
    let after = with_exited(m.executables, exited);
    assert forall|i: int| is_first(after, i, path) implies !(#[trigger] after[i]).is_running by {
        assert forall|j: int| 0 <= j < i implies (#[trigger] m.executables[j]).path != path by {
            assert(after[j].path == m.executables[j].path);
        }
        assert(is_first(m.executables, i, path));
    }
    if exited == seq![path] {
        assert(exited.to_set() =~= Set::<Seq<char>>::empty().insert(path)) by {
            assert(exited[0] == path);
        }
        assert(without(m.running, exited) =~= m.running.remove(path));
    }
}

/// A cleanup that is told of no exit changes nothing.
pub proof fn law_empty_cleanup_changes_nothing(m: ManagerView)
    ensures
        m.after_cleanup(Seq::empty()) == m,
{
    let none = Seq::<Seq<char>>::empty();
    assert(with_exited(m.executables, none) =~= m.executables);
    assert(without(m.running, none) =~= m.running);
}

/// Removing an entry takes its process with it: the list is the old one
/// without the entry, and no process is tracked for its path. Where no other
/// entry has the same path, no entry has it afterwards and the path is not
/// running.
pub proof fn law_remove_takes_process(m: ManagerView, index: nat)
    requires
        index < m.executables.len(),
    ensures
        m.after_remove(index).executables == m.executables.remove(index as int),
        m.after_remove(index).executables.len() == m.executables.len() - 1,
        !m.after_remove(index).running.contains(m.executables[index as int].path),
        holds_once(m.executables, m.executables[index as int].path) ==> !has_entry(
            m.after_remove(index).executables,
            m.executables[index as int].path,
        ),
        holds_once(m.executables, m.executables[index as int].path) ==> !m.after_remove(
            index,
        ).is_running(m.executables[index as int].path),
{
    let path = m.executables[index as int].path;
    let rest = m.after_remove(index).executables;
    if holds_once(m.executables, path) {
        let only = choose|i: int|
            0 <= i < m.executables.len() && (#[trigger] m.executables[i]).path == path
                && forall|j: int|
                0 <= j < m.executables.len() && j != i ==> (#[trigger] m.executables[j]).path
                    != path;
        assert(only == index);
        assert forall|j: int| 0 <= j < rest.len() implies (#[trigger] rest[j]).path != path by {
            let j0 = if j < index { j } else { j + 1 };
            assert(rest[j] == m.executables[j0]);
        }
    }
}

} // verus!
