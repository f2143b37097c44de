//! The entry list: what an entry is, and how a list of entries is searched and
//! changed.

use vstd::prelude::*;
use vstd::string::*;

verus! {

/// One registered executable.
#[derive(Debug, Clone, PartialEq, Eq)]
pub struct Executable {
    /// The path of the executable; the key by which the entry is found.
    pub path: String,
    /// Whether the executable is launched when the supervisor starts.
    pub launch_on_startup: bool,
    /// The cached running flag. It is never written to the backing file.
    pub is_running: bool,
}

/// What an `Executable` holds, as mathematical values.
pub struct ExecutableView {
    pub path: Seq<char>,
    pub launch_on_startup: bool,
    pub is_running: bool,
}

impl View for Executable {
    type V = ExecutableView;

    open spec fn view(&self) -> ExecutableView {
        ExecutableView {
            path: self.path@,
            launch_on_startup: self.launch_on_startup,
            is_running: self.is_running,
        }
    }
}

impl DeepView for Executable {
    type V = ExecutableView;

    open spec fn deep_view(&self) -> ExecutableView {
        self@
    }
}

impl ExecutableView {
    /// A new entry for `path`: not launched on startup, not running.
    pub open spec fn fresh(path: Seq<char>) -> ExecutableView {
        ExecutableView { path, launch_on_startup: false, is_running: false }
    }

    /// This entry with its running flag set to `value`.
    pub open spec fn running(self, value: bool) -> ExecutableView {
        ExecutableView { is_running: value, ..self }
    }

    /// This entry with its startup flag set to `value`.
    pub open spec fn auto_launch(self, value: bool) -> ExecutableView {
        ExecutableView { launch_on_startup: value, ..self }
    }
}

/// Some entry of `entries` has the path `path`.
pub open spec fn has_entry(entries: Seq<ExecutableView>, path: Seq<char>) -> bool {
    exists|i: int| 0 <= i < entries.len() && (#[trigger] entries[i]).path == path
}

/// The entry at `i` is the first one of `entries` with the path `path`: the
/// entry that stands for `path` wherever a path is looked up.
pub open spec fn is_first(entries: Seq<ExecutableView>, i: int, path: Seq<char>) -> bool {
    &&& 0 <= i < entries.len()
    &&& entries[i].path == path
    &&& forall|j: int| 0 <= j < i ==> (#[trigger] entries[j]).path != path
}

/// The cached running flag of `path`: that of the first entry with this path,
/// `false` where there is none.
pub open spec fn cached_running(entries: Seq<ExecutableView>, path: Seq<char>) -> bool {
    exists|i: int| is_first(entries, i, path) && (#[trigger] entries[i]).is_running
}

/// `entries` with the running flag of `path` set to `value`: only the first
/// entry with this path changes, and nothing does where there is none.
pub open spec fn with_running(
    entries: Seq<ExecutableView>,
    path: Seq<char>,
    value: bool,
) -> Seq<ExecutableView> {
    Seq::new(
        entries.len(),
        |i: int|
            if is_first(entries, i, path) {
                entries[i].running(value)
            } else {
                entries[i]
            },
    )
}

/// `entries` with the running flag cleared for every path in `exited`.
pub open spec fn with_exited(
    entries: Seq<ExecutableView>,
    exited: Seq<Seq<char>>,
) -> Seq<ExecutableView> {
    Seq::new(
        entries.len(),
        |i: int|
            if is_first(entries, i, entries[i].path) && exited.contains(entries[i].path) {
                entries[i].running(false)
            } else {
                entries[i]
            },
    )
}

/// `entries` with every running flag cleared.
pub open spec fn all_stopped(entries: Seq<ExecutableView>) -> Seq<ExecutableView> {
    Seq::new(entries.len(), |i: int| entries[i].running(false))
}

/// An entry that the startup policy launches: flagged for it and not running.
pub open spec fn wants_startup(entry: ExecutableView) -> bool {
    entry.launch_on_startup && !entry.is_running
}

/// The paths that the startup policy launches, in the order of the entries.
pub open spec fn startup_paths(entries: Seq<ExecutableView>) -> Seq<Seq<char>> {
    entries.filter(|e: ExecutableView| wants_startup(e)).map_values(|e: ExecutableView| e.path)
}

/// Exactly one entry of `entries` has the path `path`.
pub open spec fn holds_once(entries: Seq<ExecutableView>, path: Seq<char>) -> bool {
    exists|i: int|
        0 <= i < entries.len() && (#[trigger] entries[i]).path == path && forall|j: int|
            0 <= j < entries.len() && j != i ==> (#[trigger] entries[j]).path != path
}

/// No entry of `entries` is flagged as running.
pub open spec fn none_running(entries: Seq<ExecutableView>) -> bool {
    forall|i: int| 0 <= i < entries.len() ==> !(#[trigger] entries[i]).is_running
}

/// Finds the first entry with the path `path`.
pub fn find_entry(entries: &Vec<Executable>, path: &str) -> (r: Option<usize>)
    ensures
        match r {
            Some(i) => is_first(entries.deep_view(), i as int, path@),
            None => !has_entry(entries.deep_view(), path@),
        },
{
    let key = path.to_owned();
    let mut i: usize = 0;
    while i < entries.len()
        invariant
            i <= entries.len(),
            key@ == path@,
            forall|j: int| 0 <= j < i ==> (#[trigger] entries.deep_view()[j]).path != path@,
        decreases entries.len() - i,
    {
        if entries[i].path == key {
            return Some(i);
        }
        i = i + 1;
    }
    None
}

/// Sets the running flag of `path` to `value`, where an entry has this path.
pub fn set_running(entries: &mut Vec<Executable>, path: &str, value: bool)
    ensures
        final(entries).deep_view() == with_running(old(entries).deep_view(), path@, value),
{
    match find_entry(entries, path) {
        Some(i) => {
            entries[i].is_running = value;
            assert(entries.deep_view() =~= with_running(old(entries).deep_view(), path@, value));
        },
        None => {
            assert(entries.deep_view() =~= with_running(old(entries).deep_view(), path@, value));
        },
    }
}

/// Clears the running flag of every entry.
pub fn stop_entries(entries: &mut Vec<Executable>)
    ensures
        final(entries).deep_view() == all_stopped(old(entries).deep_view()),
{
    let mut i: usize = 0;
    while i < entries.len()
        invariant
            i <= entries.len(),
            entries.len() == old(entries).len(),
            forall|j: int|
                0 <= j < i ==> (#[trigger] entries@[j])@ == old(entries)@[j]@.running(false),
            forall|j: int| i <= j < entries.len() ==> (#[trigger] entries@[j]) == old(entries)@[j],
        decreases entries.len() - i,
    {
        entries[i].is_running = false;
        i = i + 1;
    }
    assert(entries.deep_view() =~= all_stopped(old(entries).deep_view()));
}

} // verus!
