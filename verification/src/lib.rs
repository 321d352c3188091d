//! Desktop switching for Windows: named desktops, binds and the command language that drives them.
pub mod model;
pub mod platform;
pub mod text;
pub mod tools;
pub mod handling;
pub mod command_handler;
pub mod data_manager;
pub mod logic;
pub mod shortcuts;
pub mod fs_lib;
pub mod regchange;
pub mod laws;
pub mod handler_laws;
pub mod file_laws;
