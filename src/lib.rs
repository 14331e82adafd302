//! A school-bell broadcast core: tasks that bind an audio clip to a time,
//! their stored encoding, the decisions of the scheduler's timers, the
//! play queue of the audio sink and the registry of pending cancellations.

pub mod task;
pub mod clock;
pub mod scheduler;
pub mod sink;
pub mod text;
pub mod cancel;
pub mod store;
pub mod metrics;
pub mod form;
pub mod display;
