//! Verified core for inspecting and mutating a login-item registry.
//!
//! The operating system keeps, per scope (one list for the current session,
//! one global list), an ordered list of login items.  This crate verifies the
//! logic that lists, adds and removes such items: opening the right list,
//! walking a snapshot of its entries, resolving each entry to a display name
//! and a percent-decoded filesystem path, matching entries for removal, and
//! releasing every acquired handle exactly once on every exit path.
//!
//! The registry itself is external, mutable state owned by the operating
//! system.  The crate therefore works against [`sys::SimSystem`], a simulated
//! registry with an instrumented handle-accounting layer, whose methods carry
//! the contracts of the system calls they stand for.  An unverified front end
//! drives the same per-entry decisions ([`login_items::format_entry_line`],
//! [`login_items::removal_decision`]) against the real system API.

pub mod decode;
pub mod laws;
pub mod login_items;
pub mod sys;
