pub mod config;
pub mod decode;
pub mod laws;
pub mod table;
pub mod text;
