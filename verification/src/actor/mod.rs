//! The worker that turns a model's token stream into visible text, spoken
//! sentences and tool calls.

pub mod answer;
pub mod generation;
pub mod heartbeat;
pub mod sentence_buffer;
pub mod stream_filter;

pub use generation::{CharacterState, Generation, Output, Reader};
pub use sentence_buffer::SentenceBuffer;
pub use stream_filter::StreamFilter;
