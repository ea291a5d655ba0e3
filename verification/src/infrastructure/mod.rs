//! Infrastructure layer: what is stored, said, shown and voiced through the
//! outside world.

pub mod audio;
pub mod database;
pub mod llm;
pub mod os_signals;

pub use audio::Speaker;
pub use os_signals::Notifier;
