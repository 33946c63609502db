//! A protocol-compliance stub for line-oriented mail sessions: a verified
//! command interpreter that checks command sequencing and produces standard
//! reply codes, without storing or delivering anything.
//!
//! The library holds the pure logic: the per-connection state machine, the
//! verb handlers, the reply rendering and the address-literal grammar. All
//! transport I/O (sockets, buffered reads and writes, the worker pool) lives
//! outside the library and drives it one line at a time.

pub mod handlers;
pub mod laws;
pub mod reply;
pub mod session;
pub mod state;
pub mod text;
pub mod validate;

pub use handlers::{handle_cmd_data, handle_cmd_ehlo, handle_cmd_helo, handle_cmd_help,
    handle_cmd_mail, handle_cmd_noop, handle_cmd_quit, handle_cmd_rcpt, handle_cmd_rset,
    handle_cmd_unknown, handle_cmd_vrfy};
pub use reply::{render_reply, Reply};
pub use session::{greeting, session_done, session_step, Verb};
pub use state::SmtpState;
