//! Memory-aware LLM runtime manager: command building for the supported runtimes,
//! profile and Modelfile parsing, GGUF metadata parsing, KV-cache sizing, memory
//! pressure classification and the warning/restore adjustment state machine.
pub mod text;
pub mod llm_backend;
pub mod memory_monitor;
pub mod memory_pressure;
pub mod adjust;
pub mod ollama_config;
pub mod backends;
pub mod profile;
pub mod gguf;
pub mod cli;
pub mod commands;
pub mod json;
