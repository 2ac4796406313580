//! A proxy that keeps a Minecraft server asleep while nobody plays: it answers status
//! requests itself, starts the server when a player joins, holds or kicks players until it
//! is up, and puts it to sleep again once it has been idle.
pub mod action;
pub mod config;
pub mod join;
pub mod mc;
pub mod net;
pub mod probe;
pub mod proto;
pub mod server;
pub mod shell;
pub mod status;
pub mod text;
pub mod types;
pub mod util;
pub mod watch;
