//! The verified core of a headless client for the Jay Network mining pool.

pub mod balance;
pub mod clock;
pub mod entropy;
pub mod ids;
pub mod json;
pub mod pool_url;
pub mod protocol;
pub mod reconnect;
pub mod report;
pub mod session;
pub mod text;
pub mod token;
pub mod wallet;
pub mod wire;
