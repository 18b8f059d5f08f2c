//! GitStream core: the verified logic of a desktop Git client.
pub mod app_log;
pub mod askpass;
pub mod git;
pub mod network;
pub mod path;
pub mod settings;
pub mod system;
pub mod text;
pub mod update;
