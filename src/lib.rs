pub mod encoding;
pub mod errors;
pub mod sources;
pub mod password;
pub mod token;
pub mod store;
pub mod dtos;
pub mod auth;
