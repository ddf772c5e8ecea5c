pub mod advertising;
pub mod bonder;
pub mod types;
pub mod services;
pub mod server;
