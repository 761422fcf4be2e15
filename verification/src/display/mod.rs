//! The data model of attached displays.

pub mod manager;
pub mod modes;
pub mod monitor;
pub mod orientation;
pub mod resolution;

pub use manager::DisplayManager;
pub use monitor::Monitor;
pub use orientation::Orientation;
pub use resolution::Resolution;
