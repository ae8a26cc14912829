pub mod rest;
pub mod websocket;
