//! Display configuration staging, application and safety net.
//!
//! A wrong resolution or rotation can leave a display unreadable. This
//! library is the part of a display manager that guards against that: it
//! keeps the settings a user wants for each monitor apart from what the
//! hardware shows, turns them into driver calls one monitor at a time, and
//! runs the confirm-or-revert countdown that puts the last good settings
//! back when nobody confirms the new ones.
//!
//! The library performs no input or output. Callers hand it what the
//! display driver reported and what was read from storage, and carry out the
//! calls and writes it asks for.
//!
//! - [`display`]: monitors, modes and orientations; the catalog of one
//!   enumeration; the mode to request for a wanted setting.
//! - [`staging`]: the staging store of wanted settings per monitor.
//! - [`apply`]: the apply engine, from wanted settings to driver calls and
//!   failure reports.
//! - [`safety`]: the safety net controller.
//! - [`config`]: the profile store, named snapshots of staged resolutions.
//! - [`session`]: one session that ties the parts together, message by
//!   message.
//! - [`choices`]: the lists a user chooses from, and how a choice becomes a
//!   mode.
//! - [`cli`]: what a command line comes to.
//! - [`id_map`], [`text`], [`error`]: maps by monitor id, text building, and
//!   the failures that are reported.

pub mod apply;
pub mod choices;
pub mod cli;
pub mod config;
pub mod display;
pub mod error;
pub mod id_map;
pub mod safety;
pub mod session;
pub mod staging;
pub mod text;
