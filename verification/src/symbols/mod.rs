pub mod meaning;

pub use meaning::{Symbol, SymbolCategory, SymbolMeaning, SymbolTable};
