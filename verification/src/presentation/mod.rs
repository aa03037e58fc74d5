//! Pure text and layout decisions behind the window: what each widget shows.
pub mod chat_text;
pub mod code;
pub mod live_markdown;
pub mod export;
pub mod models_view;
pub mod titles;
pub mod settings;
pub mod providers_view;
pub mod conversation_list;
pub mod reply;
pub mod catalog;
pub mod model_jobs;
