pub mod context;
pub mod laws;
pub mod ops;
pub mod runtime;
pub mod semantics;
pub mod stack;

pub use context::{CallFrame, Context, ContextError, ExceptionHandler, Scope, Variable};
pub use ops::{Computed, Pending, RuntimeError, RuntimeResult};
pub use runtime::{Effect, Runtime};
pub use stack::{Stack, StackError};
