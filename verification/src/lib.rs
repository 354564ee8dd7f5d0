//! The verified core of a Deno host: the HTTP streams that scripts serve
//! requests through, the messages they exchange with the windows, and the
//! start-up and exit rules of the command line.

mod calls;
pub mod cli;
pub mod fake_http;
pub mod ipc;
pub mod laws;
mod place;
