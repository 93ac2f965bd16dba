//! A launch descriptor for a child process: the program, its arguments, the
//! environment policy, the working directory and the three standard streams
//! are gathered here before any process exists. Nothing in this crate touches
//! the operating system; whoever spawns the process reads the descriptor and
//! supplies the ambient environment as plain values.

pub mod command;
pub mod environ;
pub mod laws;
pub mod native;
pub mod stdio;

pub use command::{Command, CommandView};
pub use environ::EnvMap;
pub use native::{NativeString, StringConversionError};
pub use stdio::Stdio;
