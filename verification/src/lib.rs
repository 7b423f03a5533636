//! Core of a campsite-availability tracker: the scheduler, rate governor,
//! session bookkeeping, availability cache, diff engine and notification
//! pipeline that watch campgrounds on behalf of user scans, each piece a
//! pure function or small state machine with a proved contract.  All I/O
//! (database, HTTP, transports, clocks) is driven by a thin runner that
//! feeds plain values in and carries the decisions out.

pub mod dates;
pub mod types;
pub mod text;
pub mod codec;
pub mod snapshot;
pub mod diff;
pub mod store;
pub mod governor;
pub mod session;
pub mod scheduler;
pub mod upstream;
pub mod notify;
pub mod engine;
pub mod accounts;
pub mod codes;

pub use dates::Date;
