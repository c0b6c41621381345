pub mod json;
pub mod binary64;
pub mod text;
pub mod gemma4;
pub mod names;
pub mod hf;
pub mod votes;
pub mod grpo;
pub mod llama;
pub mod lora;
pub mod tensor_parallel;
pub mod dtype;
pub mod frames;
pub mod sha256;
pub mod lm_policy;
pub mod tensor_file;
pub mod loader;
