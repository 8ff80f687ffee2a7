//! What holds of the library as a whole.

pub mod addresses;
pub mod encoding;
pub mod gathering;
pub mod inputs;
pub mod jobs;
pub mod picks;
pub mod plans;
pub mod queues;
pub mod runs;
pub mod settings;
pub mod signatures;
pub mod targets;
pub mod texts;
pub mod uploads;
