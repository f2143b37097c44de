//! A process supervisor core.
//!
//! The supervisor owns an ordered list of executable entries, knows which
//! paths have a live process, and decides what every request does to both. It
//! never touches the operating system itself: whoever drives it starts,
//! terminates and polls the processes and reads and writes the backing file,
//! and hands each outcome to the operation that needs it. Every operation is
//! total over those outcomes, and its contract says what it returns and how
//! the state changes for each of them.

pub mod error;
pub mod laws;
pub mod lifecycle;
pub mod manager;
pub mod store;
pub mod table;
pub mod text;
pub mod window;

pub use error::{NexusError, StopFailure};
pub use lifecycle::{load, unload};
pub use manager::{save_result, ExeManager, StoreFile};
pub use store::Executable;
pub use table::{KillOutcome, ProcessTable};
pub use window::{display_path, toggle_window};
