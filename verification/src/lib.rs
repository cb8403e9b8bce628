//! Filesystem-inventory scanning engine.
//!
//! The library compiles layered gitignore-style rules into a matching
//! predicate, classifies file contents as text or binary, and filters a
//! sequence of directory entries into the records a scan emits.  All
//! decisions are made over plain values (relative paths, byte samples,
//! sizes), so a thin front end can gather entries from a real filesystem
//! and hand them to the engine.

use vstd::prelude::*;

pub mod classify;
pub mod glob;
pub mod ignore;
pub mod laws;
pub mod scanner;
pub mod text;

pub use classify::is_binary_file;
pub use ignore::IgnoreMatcher;
pub use ignore::ScanError;
pub use ignore::load_ignore;
pub use scanner::Config;
pub use scanner::Entry;
pub use scanner::EntryMeta;
pub use scanner::FileRecord;
pub use scanner::ScanInput;
pub use scanner::scan_repo_collect;
pub use scanner::to_posix;

verus! {

} // verus!
