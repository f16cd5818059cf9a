//! WhatsApp on the device: messages, notifications, chats and sending.
pub mod models;
pub mod parser;
pub mod chat_list;
pub mod reader;
pub mod sender;
pub mod navigator;
