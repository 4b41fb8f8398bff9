pub mod client;
pub mod config;
pub mod course;
pub mod daemon;
pub mod files;
pub mod flow;
pub mod init;
pub mod install;
pub mod log;
pub mod partition;
pub mod pattern;
pub mod plan;
pub mod protocol;
pub mod slots;
pub mod style;
pub mod survey;
pub mod system;
pub mod template;
pub mod text;
