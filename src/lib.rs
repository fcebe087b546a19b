//! The core of a command line podcast manager: which episodes to fetch, how
//! the work is shared among workers, how each transfer resumes, and how the
//! outcomes of refreshing the subscriptions are merged and saved.
//!
//! - `selector` and `resolve` turn a selection (an index, a list of indices and
//!   ranges, a name, the latest few, or everything) into download intents,
//!   leaving out what is already on disk.
//! - `partition` shares intents among at most as many workers as cores.
//! - `transfer` follows one resumable transfer and its progress.
//! - `reconcile` and `state` plan refreshes, merge their outcomes, and lay out
//!   the atomic replacement of the state file.
//! - `feed`, `paths`, `text`, `pattern`, `playback`, `search` and `version`
//!   hold the data model and the helpers around it.

pub mod feed;
pub mod partition;
pub mod paths;
pub mod pattern;
pub mod playback;
pub mod reconcile;
pub mod resolve;
pub mod search;
pub mod selector;
pub mod state;
pub mod text;
pub mod transfer;
pub mod version;
