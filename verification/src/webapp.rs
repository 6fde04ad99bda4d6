pub mod actions;
pub mod app;
pub mod characters;
pub mod intro;
pub mod items;
pub mod messages;
pub mod print;
pub mod qrscanner;
pub mod scenes;
pub mod speech;
pub mod status;
pub mod websocket_client;
