//! Watches a filesystem subtree and maintains running aggregate statistics
//! (file count, total bytes) over it. The core is the event-coalescing
//! engine: raw change notifications are deduplicated into a pending set of
//! paths, a debounce window decides when the set has settled, and a settled
//! batch is handed to a recursive scanner that folds what each path holds
//! into the totals.

pub mod scanner;
pub mod startup;
pub mod watcher;
