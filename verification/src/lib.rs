//! Decoder for the binary IANA timezone-information format (TZif, 64-bit
//! layout), with transition queries and zone-state resolution.
//!
//! [`Tz::new`] turns a raw byte buffer into a [`Tz`]: the transition
//! timestamps, the type index of each transition, the local-time types
//! (offset, DST flag, abbreviation index), and the abbreviation table. The
//! decoder validates the structural invariants the queries rely on, and its
//! whole behaviour is pinned down by [`zone::spec_new`]: what it accepts and
//! what it returns are functions of the buffer alone.
//!
//! [`Tz::transition_times`] selects the transitions relevant to a year (or
//! the whole table), joined into self-contained [`TransitionTime`] records;
//! [`Tz::zoneinfo`] resolves which offset, DST flag, abbreviation and week
//! number apply at a given instant. Both take the instant "now" as an
//! explicit parameter, so every query is a pure function of its inputs;
//! sampling the wall clock is the caller's business.
//!
//! The only calendar facts taken on trust are the ones the `chrono` crate
//! supplies (the instant a year begins, the year and ISO week of an instant),
//! together with UTF-8 decoding by `String::from_utf8`; each stands behind a
//! small wrapper in [`calendar`] and [`text`] whose contract states exactly
//! what is relied on.

pub mod bytes;
pub mod calendar;
pub mod error;
pub mod header;
pub mod text;
pub mod query;
pub mod resolve;
pub mod zone;
pub mod zonename;

pub use error::TzError;
pub use header::Header;
pub use query::{TransitionTime, TransitionTimeModel};
pub use resolve::{Tzinfo, TzinfoModel};
pub use zone::{Tz, Ttinfo, TzModel};
pub use zonename::zone_name_from_path;

