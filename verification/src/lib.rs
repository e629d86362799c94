//! A minimal process supervisor core.
//!
//! The library holds the verified heart of a supervisor that launches a
//! child command, restarts it whenever it exits, and shares a runtime
//! snapshot with concurrent readers: the runtime snapshot itself
//! ([`info::RuntimeInfo`]), the restart-loop state machine
//! ([`supervisor::Supervisor`]), and the builders for the audit-log labels
//! and messages ([`messages`]). Process spawning, signal handling, the
//! event store, and the HTTP status endpoint are I/O and live outside the
//! library; they feed plain values (child pids, timestamps, the stop flag)
//! into the functions here.

pub mod hostname;
pub mod info;
pub mod messages;
pub mod supervisor;

pub use hostname::hostname_from_output;
pub use info::RuntimeInfo;
pub use messages::event_label;
pub use messages::join_command;
pub use messages::restart_message;
pub use messages::starting_message;
pub use messages::welcome_message;
pub use supervisor::Decision;
pub use supervisor::Phase;
pub use supervisor::Supervisor;
