//! The `status` builtin of the shell: it reads its options and subcommand, checks how they
//! combine, and answers questions about the state of the shell.
//!
//! Everything here is a function of plain values. The state of the shell is handed in as a
//! [`parser::Parser`], and with it the texts in the language of the user, as
//! [`messages::Messages`]; what is to be printed is collected in [`streams::IoStreams`].

pub mod cmdline;
pub mod english;
pub mod features;
pub mod laws;
pub mod messages;
pub mod opts;
pub mod parser;
pub mod printf;
pub mod shared;
pub mod streams;
pub mod status;
pub mod status_cmd;
pub mod sys;
pub mod text;
pub mod wcstoi;
pub mod wgetopt;
pub mod wutil;
