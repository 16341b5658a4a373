pub mod opcode;
pub mod value;

pub use opcode::{Chunk, FunctionInfo, OpCode, ValueType};
pub use value::{Closure, Value, ValueView};
