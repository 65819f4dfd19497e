//! Command builders for the supported runtimes.
pub mod args;
pub mod llama_cpp;
pub mod mlc;
pub mod ollama;
pub mod vllm;
