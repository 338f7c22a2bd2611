//! Schedule-status rendering: weekly-occurrence arithmetic, compact duration
//! strings, template substitution, and time-sorted status lines for classes
//! and assignments.

pub mod clock;
pub mod duration;
pub mod errors;
pub mod render;
pub mod schedule;
pub mod strutil;
pub mod weekly;

pub use duration::TimeState;
pub use duration::format_time;
pub use errors::LoadError;
pub use render::Assignment;
pub use render::Class;
pub use render::ClassState;
pub use render::Format;
pub use schedule::Timetable;
pub use strutil::substitute;
pub use weekly::LocalInstant;
