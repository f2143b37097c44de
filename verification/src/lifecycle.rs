//! What happens when the supervisor is brought up and taken down.

use crate::error::{result_view, NexusError};
use crate::manager::{attempts_of, ExeManager, ManagerView};
use crate::store::startup_paths;
use crate::table::KillOutcome;
use vstd::prelude::*;
use vstd::string::*;

verus! {

/// Brings the supervisor up: runs the startup policy once.
///
/// Every entry that is flagged for startup and not running is launched, in the
/// order of the entries as they stand before the first launch. `started` holds
/// what the operating system answered for each of these paths, in the same
/// order (`ExeManager::startup_paths` names them). A launch that fails does not
/// keep the later ones from being made; the errors are returned in order.
pub fn load(manager: &mut ExeManager, started: &[Result<(), String>]) -> (r: Vec<NexusError>)
    ensures
        final(manager)@ == old(manager)@.after_launches(
            attempts_of(startup_paths(old(manager)@.executables), started@),
        ),
        r.deep_view() == old(manager)@.launch_failures(
            attempts_of(startup_paths(old(manager)@.executables), started@),
        ),
{
    let paths = manager.startup_paths();
    manager.launch_each(paths.as_slice(), started)
}

/// Takes the supervisor down: every process is stopped. `kills` holds what the
/// operating system answered for each process that was to be terminated. The
/// supervisor is fully stopped afterwards even where some of them were
/// refused.
pub fn unload(manager: &mut ExeManager, kills: &[KillOutcome]) -> (r: Result<(), NexusError>)
    ensures
        final(manager)@ == old(manager)@.after_stop_all(),
        result_view(r) == ManagerView::stop_all_result(kills.deep_view()),
{
    manager.stop_all(kills)
}

} // verus!
