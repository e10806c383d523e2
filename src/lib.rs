//! Per-process library loading driven by a sectioned configuration file:
//! the configuration model, its line-oriented parser, and the policy that
//! decides which library to load next and when to stop.
pub mod config;
pub mod loader;
pub mod notify;
pub mod parser;
pub mod text;

pub use config::{Config, LoadConfig, ProcConfig};
pub use loader::{LoadAction, LoadError, LoadEvent, LoadSession, INIT_DECLINED};
pub use notify::{dbg_msg_box, err_msg_box};
pub use parser::{ConfigParser, Context, ParseError, ParseErrorKind};
