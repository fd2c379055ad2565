pub mod codec;
pub mod config;
pub mod constant;
pub mod error;
pub mod packets;
pub mod rate;
pub mod utils;
pub mod models;
pub mod state;
pub mod connection;
pub mod proxy;
pub mod http;
pub mod maps;
