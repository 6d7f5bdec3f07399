//! Verified core of a binding between native code and an embedded
//! JavaScript runtime with a tracing collector.
//!
//! The runtime itself is not part of this crate, and nothing in here calls
//! it.  Its values cross the boundary as [`jsval::JSVal`], a plain record of
//! what the runtime reported or is to be handed, and its per-context state
//! that the binding relies on is kept in plain tables.  Everything in here is
//! a verified function on such records:
//!
//! - [`convert`]: the conversion protocol between values of the runtime and
//!   native values, with the laws of the way there and back;
//! - [`number`] and [`utf16`]: what the protocol needs of IEEE-754 doubles and
//!   of UTF-16;
//! - [`value`]: any value of the runtime as a native enum, and the encoding
//!   of completions and resumptions;
//! - [`utils`]: the properties and elements of objects;
//! - [`exception`]: captured exceptions and the slot of the pending one;
//! - [`trace`]: the table of roots and the boxes that own its cells;
//! - [`call`]: native closures as objects that the runtime can call;
//! - [`object`], [`frame`], [`environment`], [`script`], [`source`],
//!   [`debugger`]: what a debugger holds and reads of the runtime's objects,
//!   and the handlers that it installs.

pub mod call;
pub mod convert;
pub mod debugger;
pub mod environment;
pub mod exception;
pub mod ext;
pub mod frame;
pub mod jsval;
pub mod number;
pub mod object;
pub mod rooted;
pub mod script;
pub mod source;
pub mod trace;
pub mod utf16;
pub mod utils;
pub mod value;

pub use debugger::{OnDebuggerStatement, OnNewScript};
pub use environment::Environment;
pub use exception::{Exception, Result};
pub use frame::{Arguments, Frame};
pub use object::{Object, PropertyDescriptor};
pub use script::Script;
pub use source::Source;
pub use value::{CompletionValue, ResumptionValue, Value};
