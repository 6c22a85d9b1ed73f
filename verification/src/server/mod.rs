pub mod asr;
pub mod collector;
pub mod config;
pub mod i18n;
pub mod llm;
pub mod mcp;
pub mod model_files;
pub mod ota_data;
pub mod record;
pub mod tts;
