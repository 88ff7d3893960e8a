//! Control plane for per-user virtual machines: naming and on-disk layout,
//! machine configuration, emulator argument assembly and the monitor protocol.

pub mod commands;
pub mod config;
pub mod emulator;
pub mod error;
pub mod helper;
pub mod image;
pub mod ini_writer;
pub mod launcher;
pub mod network;
pub mod qmp;
pub mod storage;
pub mod supervisor;
pub mod template;
pub mod text;
pub mod util;
pub mod vm;
