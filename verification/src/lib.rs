//! Verified core of a WhatsApp-over-ADB bridge.
pub mod text;
pub mod adb;
pub mod contacts;
pub mod matching;
pub mod whatsapp;
pub mod llm;
pub mod menu;
pub mod ui;
pub mod screen;
