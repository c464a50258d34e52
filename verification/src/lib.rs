pub mod text;
pub mod skill;
pub mod width;
pub mod table;
pub mod input;
pub mod chat_app;
pub mod ui;
pub mod task;
pub mod numfmt;
pub mod boulder;
pub mod stream;
pub mod providers;
pub mod tools;
pub mod intent;
pub mod mcp;
pub mod controller;
pub mod markdown;
pub mod chat_view;
pub mod orchestration;
pub mod laws;
pub mod registry;
pub mod hooks;
pub mod requests;
