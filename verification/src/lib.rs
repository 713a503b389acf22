//! Dispatch and marshalling between typed command handlers and a caller that
//! speaks only in strings, a fixed-size output buffer and an integer status.

pub mod buffer;
pub mod callback;
pub mod command;
pub mod context;
pub mod convert;
pub mod extension;
pub mod group;
pub mod queue;
pub mod shapes;
pub mod status;
pub mod text;
pub mod value;

pub use buffer::write_cstr;
pub use command::{fn_handler, CommandExecutor, CommandFactory, CommandHandler, HandlerModel};
pub use context::Context;
pub use convert::{FromArma, IntoArma};
pub use extension::{Extension, ExtensionBuilder};
pub use group::{Group, Registry};
pub use value::Value;
