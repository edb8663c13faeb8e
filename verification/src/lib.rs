//! The text and decision logic of a desktop translation and summarization
//! client: chunking long text, building prompts, normalizing API keys,
//! naming output files, reading streamed chat deltas and driving a chunked
//! translation run.
pub mod text;
pub mod chunking;
pub mod keys;
pub mod credentials;
pub mod prompts;
pub mod endpoints;
pub mod files;
pub mod stream;
pub mod cancel;
pub mod run;
