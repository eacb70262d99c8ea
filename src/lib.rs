pub mod config;
pub mod coordinator;
pub mod keygen;
pub mod matching;
pub mod progress;
pub mod signal;
pub mod text;
pub mod worker;
