//! What the operations of the crate are good for, over all inputs. Each law
//! speaks of what is handed to a function and of what the function returns or
//! leaves behind, in plain terms: of bytes, names, numbers and variants.

pub mod command_line;
pub mod headers;
pub mod messages;
pub mod negotiation;
pub mod reading;
pub mod requests;
pub mod responses;
pub mod writing;
