//! Configuration of the commands.
pub mod release;
pub mod release_pr;
pub mod set_version;
