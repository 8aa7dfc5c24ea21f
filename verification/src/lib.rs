pub mod client;
pub mod streams;
pub mod text;
pub mod types;
