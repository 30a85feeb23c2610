//! Synchronization core for a narrated text reader.
//!
//! Three subsystems cooperate to keep the visual scroll position of a
//! paginated text in step with spoken audio:
//!
//! - the text normalizer turns raw display sentences into a cleaned,
//!   speakable sentence stream while keeping a bidirectional index mapping
//!   (`normalizer`),
//! - the playback state machine owns a narration session: request identity,
//!   stale-result rejection, elapsed-time-to-sentence resolution,
//!   pause/resume/seek (`playback`),
//! - the scroll position estimator converts a spoken-sentence index into a
//!   fractional scroll target (`scroll`).
//!
//! Supporting modules hold character-level text utilities (`chars`), the
//! cleaning transforms (`transform`), configuration with clamped numeric
//! ranges (`config`), cache path derivation and chapter assembly
//! (`storage`).

pub mod chars;
pub mod config;
pub mod normalizer;
pub mod playback;
pub mod scroll;
pub mod storage;
pub mod transform;
