pub mod commands;
pub mod token;
