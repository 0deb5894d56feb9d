pub mod bootstrap;
pub mod client;
pub mod daemon;
pub mod gui;
pub mod nvapi;
pub mod platform_types;
pub mod text;
