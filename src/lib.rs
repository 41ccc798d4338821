//! Job pipeline, worker queue and tool acquisition logic for an offline
//! transcription app: the state machines and rules, proved with Verus.

pub mod codec;
pub mod config;
pub mod install;
pub mod intake;
pub mod job;
pub mod json;
pub mod paths;
pub mod pipeline;
pub mod progress;
pub mod queue;
pub mod release;
pub mod release_url;
pub mod resolver;
pub mod segments;
pub mod status;
pub mod store;
pub mod summary;
pub mod text;
