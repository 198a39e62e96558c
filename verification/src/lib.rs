pub mod api;
pub mod authority;
pub mod codec;
pub mod console;
pub mod file;
pub mod gateway;
pub mod handle;
pub mod ja3;
pub mod manager;
pub mod message;
pub mod model;
pub mod net_proxy;
pub mod pipeline;
pub mod pool;
pub mod proxy;
pub mod scope;
pub mod settings;
pub mod str_utils;
pub mod table;
pub mod text;
pub mod ua;
pub mod uri;
pub mod utils;
pub mod web;
pub mod ws;
