use vstd::prelude::*;
use vstd::string::StrSliceExecFns;
use crate::index::{name_index_entries, no_entries, NameIndex};

verus! {

broadcast use vstd::std_specs::vec::group_vec_axioms;

/// Categories of symbols. Each symbol belongs to exactly one.
#[derive(Debug, Clone, Copy, PartialEq, Eq, Hash, Structural)]
pub enum SymbolCategory {
    /// Type declarations.
    TypeDeclaration,
    /// Operators that perform actions.
    Operator,
    /// Control flow symbols.
    ControlFlow,
    /// Input and output.
    InputOutput,
    /// Special values.
    SpecialValue,
    /// Modifiers of the symbol that follows.
    Modifier,
    /// Delimiters and structural symbols.
    Delimiter,
    /// Comparison operators.
    Comparison,
    /// Logical operators.
    Logical,
}

/// The role that a glyph plays in the language.
#[derive(Debug, Clone, Copy, PartialEq, Eq, Hash, Structural)]
pub enum SymbolMeaning {
    /// Integer type (⟁) - whole numbers
    TypeInteger,
    /// Real/Float type (⧆) - decimal numbers
    TypeReal,
    /// String type (⌘) - text sequences
    TypeString,
    /// Boolean type (☍) - true/false values
    TypeBoolean,
    /// Rune type (ᚱ) - single Unicode character
    TypeRune,
    /// Array type (⌬) - ordered collection
    TypeArray,
    /// Map type (⌖) - key-value collection
    TypeMap,
    /// Null/Void value (∅)
    Null,
    /// True boolean (◉)
    True,
    /// False boolean (◎)
    False,
    /// Addition (✚)
    Add,
    /// Subtraction (☠︎)
    Subtract,
    /// Multiplication (✱)
    Multiply,
    /// Division (÷)
    Divide,
    /// Modulo (⌘)
    Modulo,
    /// Power/Exponent (⬆)
    Power,
    /// Negate (−)
    Negate,
    /// Equal (⩵)
    Equal,
    /// Not Equal (≠)
    NotEqual,
    /// Less Than (◁)
    LessThan,
    /// Greater Than (▷)
    GreaterThan,
    /// Less Than or Equal (◁⩵)
    LessOrEqual,
    /// Greater Than or Equal (▷⩵)
    GreaterOrEqual,
    /// Logical AND (∧)
    And,
    /// Logical OR (∨)
    Or,
    /// Logical NOT (¬)
    Not,
    /// Logical XOR (⊕)
    Xor,
    /// Assignment operator (⚙︎)
    Assign,
    /// Arrow for assignment target (→)
    Arrow,
    /// Binding/Let (≔)
    Bind,
    /// Input from user (⚓)
    Input,
    /// Output variable value (⚡)
    Output,
    /// Print literal text (✤)
    Print,
    /// Debug output (⌥)
    Debug,
    /// Start of cycle/loop (⊂)
    LoopStart,
    /// End of cycle/loop (⊃)
    LoopEnd,
    /// Conditional branch start (⟨)
    IfStart,
    /// Else branch (⟩)
    Else,
    /// End of conditional (⟫)
    IfEnd,
    /// Break from loop (⊗)
    Break,
    /// Continue to next iteration (⊕)
    Continue,
    /// End program (❧)
    EndProgram,
    /// Function definition start (λ)
    FunctionStart,
    /// Function definition end (Λ)
    FunctionEnd,
    /// Return from function (⤶)
    Return,
    /// Call function (⤷)
    Call,
    /// Match expression start (⟡)
    MatchStart,
    /// Match arm (⟢)
    MatchArm,
    /// Match expression end (⟣)
    MatchEnd,
    /// Wildcard pattern (◇)
    Wildcard,
    /// Import module (⟲)
    Import,
    /// Export symbol (⟳)
    Export,
    /// Module access (⊷)
    ModuleAccess,
    /// Try block start (☄)
    TryStart,
    /// Catch block (☊)
    CatchBlock,
    /// Finally block (☋)
    FinallyBlock,
    /// Throw exception (⚠)
    Throw,
    /// Map key-value separator (⇒)
    MapArrow,
    /// Map entry separator (⋄)
    MapSeparator,
    /// Push to stack (⇑)
    Push,
    /// Pop from stack (⇓)
    Pop,
    /// Duplicate top of stack (⇕)
    Dup,
    /// Swap top two stack elements (⇆)
    Swap,
    /// Rotate stack (↻)
    Rotate,
    /// Accumulator (✹) - special counter variable
    Accumulator,
    /// Increment (⊕)
    Increment,
    /// Decrement (⊖)
    Decrement,
    /// Optional modifier (∅ suffix)
    Optional,
    /// Reference/Address (⌘)
    Reference,
    /// Dereference (⌦)
    Dereference,
    /// Left bracket [
    LeftBracket,
    /// Right bracket ]
    RightBracket,
    /// Left paren (
    LeftParen,
    /// Right paren )
    RightParen,
    /// Left brace { (for maps)
    LeftBrace,
    /// Right brace } (for maps)
    RightBrace,
    /// Separator (,)
    Separator,
    /// Statement terminator (⁂)
    Terminator,
    /// Comment marker (//)
    Comment,
    /// Block comment start (⌈)
    BlockCommentStart,
    /// Block comment end (⌉)
    BlockCommentEnd,
}

/// A symbol definition: a glyph with the role it plays.
#[derive(Debug, Clone, Copy)]
pub struct Symbol {
    /// The code points that make up the glyph.
    pub glyph: &'static str,
    /// The semantic meaning.
    pub meaning: SymbolMeaning,
    /// The category this symbol belongs to.
    pub category: SymbolCategory,
    /// Human-readable description.
    pub description: &'static str,
}

impl Symbol {
    pub fn new(
        glyph: &'static str,
        meaning: SymbolMeaning,
        category: SymbolCategory,
        description: &'static str,
    ) -> (r: Self)
        ensures
            r == (Symbol { glyph, meaning, category, description }),
    {
        Self { glyph, meaning, category, description }
    }
}

/// The glyphs that declare a type.
pub open spec fn type_symbols() -> Seq<Symbol> {
    seq![
        Symbol {
            glyph: "⟁",
            meaning: SymbolMeaning::TypeInteger,
            category: SymbolCategory::TypeDeclaration,
            description: "Integer type - declares whole number variables",
        },
        Symbol {
            glyph: "⧆",
            meaning: SymbolMeaning::TypeReal,
            category: SymbolCategory::TypeDeclaration,
            description: "Real type - declares floating-point variables",
        },
        Symbol {
            glyph: "⌘",
            meaning: SymbolMeaning::TypeString,
            category: SymbolCategory::TypeDeclaration,
            description: "String type - declares text variables",
        },
        Symbol {
            glyph: "☍",
            meaning: SymbolMeaning::TypeBoolean,
            category: SymbolCategory::TypeDeclaration,
            description: "Boolean type - declares true/false variables",
        },
        Symbol {
            glyph: "ᚱ",
            meaning: SymbolMeaning::TypeRune,
            category: SymbolCategory::TypeDeclaration,
            description: "Rune type - declares single character variables",
        },
        Symbol {
            glyph: "⌬",
            meaning: SymbolMeaning::TypeArray,
            category: SymbolCategory::TypeDeclaration,
            description: "Array type - declares ordered collection",
        },
        Symbol {
            glyph: "⌖",
            meaning: SymbolMeaning::TypeMap,
            category: SymbolCategory::TypeDeclaration,
            description: "Map type - declares key-value collection",
        },
    ]
}

fn add_type_symbols(list: &mut Vec<Symbol>)
    ensures
        final(list)@ == old(list)@ + type_symbols(),
{
    list.push(
        Symbol::new(
            "⟁",
            SymbolMeaning::TypeInteger,
            SymbolCategory::TypeDeclaration,
            "Integer type - declares whole number variables",
        ),
    );
    list.push(
        Symbol::new(
            "⧆",
            SymbolMeaning::TypeReal,
            SymbolCategory::TypeDeclaration,
            "Real type - declares floating-point variables",
        ),
    );
    list.push(
        Symbol::new(
            "⌘",
            SymbolMeaning::TypeString,
            SymbolCategory::TypeDeclaration,
            "String type - declares text variables",
        ),
    );
    list.push(
        Symbol::new(
            "☍",
            SymbolMeaning::TypeBoolean,
            SymbolCategory::TypeDeclaration,
            "Boolean type - declares true/false variables",
        ),
    );
    list.push(
        Symbol::new(
            "ᚱ",
            SymbolMeaning::TypeRune,
            SymbolCategory::TypeDeclaration,
            "Rune type - declares single character variables",
        ),
    );
    list.push(
        Symbol::new(
            "⌬",
            SymbolMeaning::TypeArray,
            SymbolCategory::TypeDeclaration,
            "Array type - declares ordered collection",
        ),
    );
    list.push(
        Symbol::new(
            "⌖",
            SymbolMeaning::TypeMap,
            SymbolCategory::TypeDeclaration,
            "Map type - declares key-value collection",
        ),
    );
    proof {
        assert(list@ =~= old(list)@ + type_symbols());
    }
}

/// The glyphs of the special values.
pub open spec fn value_symbols() -> Seq<Symbol> {
    seq![
        Symbol {
            glyph: "∅",
            meaning: SymbolMeaning::Null,
            category: SymbolCategory::SpecialValue,
            description: "Null/void - represents absence of value",
        },
        Symbol {
            glyph: "◉",
            meaning: SymbolMeaning::True,
            category: SymbolCategory::SpecialValue,
            description: "Boolean true value",
        },
        Symbol {
            glyph: "◎",
            meaning: SymbolMeaning::False,
            category: SymbolCategory::SpecialValue,
            description: "Boolean false value",
        },
    ]
}

fn add_value_symbols(list: &mut Vec<Symbol>)
    ensures
        final(list)@ == old(list)@ + value_symbols(),
{
    list.push(
        Symbol::new(
            "∅",
            SymbolMeaning::Null,
            SymbolCategory::SpecialValue,
            "Null/void - represents absence of value",
        ),
    );
    list.push(
        Symbol::new(
            "◉",
            SymbolMeaning::True,
            SymbolCategory::SpecialValue,
            "Boolean true value",
        ),
    );
    list.push(
        Symbol::new(
            "◎",
            SymbolMeaning::False,
            SymbolCategory::SpecialValue,
            "Boolean false value",
        ),
    );
    proof {
        assert(list@ =~= old(list)@ + value_symbols());
    }
}

/// The arithmetic operators.
pub open spec fn arithmetic_symbols() -> Seq<Symbol> {
    seq![
        Symbol {
            glyph: "✚",
            meaning: SymbolMeaning::Add,
            category: SymbolCategory::Operator,
            description: "Addition - adds two values",
        },
        Symbol {
            glyph: "☠︎",
            meaning: SymbolMeaning::Subtract,
            category: SymbolCategory::Operator,
            description: "Subtraction - subtracts second from first",
        },
        Symbol {
            glyph: "✱",
            meaning: SymbolMeaning::Multiply,
            category: SymbolCategory::Operator,
            description: "Multiplication - multiplies two values",
        },
        Symbol {
            glyph: "÷",
            meaning: SymbolMeaning::Divide,
            category: SymbolCategory::Operator,
            description: "Division - divides first by second",
        },
        Symbol {
            glyph: "⌗",
            meaning: SymbolMeaning::Modulo,
            category: SymbolCategory::Operator,
            description: "Modulo - remainder after division",
        },
        Symbol {
            glyph: "⬆",
            meaning: SymbolMeaning::Power,
            category: SymbolCategory::Operator,
            description: "Power - raises to exponent",
        },
    ]
}

fn add_arithmetic_symbols(list: &mut Vec<Symbol>)
    ensures
        final(list)@ == old(list)@ + arithmetic_symbols(),
{
    list.push(
        Symbol::new(
            "✚",
            SymbolMeaning::Add,
            SymbolCategory::Operator,
            "Addition - adds two values",
        ),
    );
    list.push(
        Symbol::new(
            "☠︎",
            SymbolMeaning::Subtract,
            SymbolCategory::Operator,
            "Subtraction - subtracts second from first",
        ),
    );
    list.push(
        Symbol::new(
            "✱",
            SymbolMeaning::Multiply,
            SymbolCategory::Operator,
            "Multiplication - multiplies two values",
        ),
    );
    list.push(
        Symbol::new(
            "÷",
            SymbolMeaning::Divide,
            SymbolCategory::Operator,
            "Division - divides first by second",
        ),
    );
    list.push(
        Symbol::new(
            "⌗",
            SymbolMeaning::Modulo,
            SymbolCategory::Operator,
            "Modulo - remainder after division",
        ),
    );
    list.push(
        Symbol::new(
            "⬆",
            SymbolMeaning::Power,
            SymbolCategory::Operator,
            "Power - raises to exponent",
        ),
    );
    proof {
        assert(list@ =~= old(list)@ + arithmetic_symbols());
    }
}

/// The comparison operators.
pub open spec fn comparison_symbols() -> Seq<Symbol> {
    seq![
        Symbol {
            glyph: "⩵",
            meaning: SymbolMeaning::Equal,
            category: SymbolCategory::Comparison,
            description: "Equal - tests if two values are equal",
        },
        Symbol {
            glyph: "≠",
            meaning: SymbolMeaning::NotEqual,
            category: SymbolCategory::Comparison,
            description: "Not equal - tests if values differ",
        },
        Symbol {
            glyph: "◁",
            meaning: SymbolMeaning::LessThan,
            category: SymbolCategory::Comparison,
            description: "Less than - tests if first is smaller",
        },
        Symbol {
            glyph: "▷",
            meaning: SymbolMeaning::GreaterThan,
            category: SymbolCategory::Comparison,
            description: "Greater than - tests if first is larger",
        },
        Symbol {
            glyph: "⩽",
            meaning: SymbolMeaning::LessOrEqual,
            category: SymbolCategory::Comparison,
            description: "Less or equal - tests if first is smaller or equal",
        },
        Symbol {
            glyph: "⩾",
            meaning: SymbolMeaning::GreaterOrEqual,
            category: SymbolCategory::Comparison,
            description: "Greater or equal - tests if first is larger or equal",
        },
    ]
}

fn add_comparison_symbols(list: &mut Vec<Symbol>)
    ensures
        final(list)@ == old(list)@ + comparison_symbols(),
{
    list.push(
        Symbol::new(
            "⩵",
            SymbolMeaning::Equal,
            SymbolCategory::Comparison,
            "Equal - tests if two values are equal",
        ),
    );
    list.push(
        Symbol::new(
            "≠",
            SymbolMeaning::NotEqual,
            SymbolCategory::Comparison,
            "Not equal - tests if values differ",
        ),
    );
    list.push(
        Symbol::new(
            "◁",
            SymbolMeaning::LessThan,
            SymbolCategory::Comparison,
            "Less than - tests if first is smaller",
        ),
    );
    list.push(
        Symbol::new(
            "▷",
            SymbolMeaning::GreaterThan,
            SymbolCategory::Comparison,
            "Greater than - tests if first is larger",
        ),
    );
    list.push(
        Symbol::new(
            "⩽",
            SymbolMeaning::LessOrEqual,
            SymbolCategory::Comparison,
            "Less or equal - tests if first is smaller or equal",
        ),
    );
    list.push(
        Symbol::new(
            "⩾",
            SymbolMeaning::GreaterOrEqual,
            SymbolCategory::Comparison,
            "Greater or equal - tests if first is larger or equal",
        ),
    );
    proof {
        assert(list@ =~= old(list)@ + comparison_symbols());
    }
}

/// The logical operators.
pub open spec fn logical_symbols() -> Seq<Symbol> {
    seq![
        Symbol {
            glyph: "∧",
            meaning: SymbolMeaning::And,
            category: SymbolCategory::Logical,
            description: "Logical AND - true if both operands true",
        },
        Symbol {
            glyph: "∨",
            meaning: SymbolMeaning::Or,
            category: SymbolCategory::Logical,
            description: "Logical OR - true if either operand true",
        },
        Symbol {
            glyph: "¬",
            meaning: SymbolMeaning::Not,
            category: SymbolCategory::Logical,
            description: "Logical NOT - inverts boolean value",
        },
        Symbol {
            glyph: "⊻",
            meaning: SymbolMeaning::Xor,
            category: SymbolCategory::Logical,
            description: "Logical XOR - true if exactly one operand true",
        },
    ]
}

fn add_logical_symbols(list: &mut Vec<Symbol>)
    ensures
        final(list)@ == old(list)@ + logical_symbols(),
{
    list.push(
        Symbol::new(
            "∧",
            SymbolMeaning::And,
            SymbolCategory::Logical,
            "Logical AND - true if both operands true",
        ),
    );
    list.push(
        Symbol::new(
            "∨",
            SymbolMeaning::Or,
            SymbolCategory::Logical,
            "Logical OR - true if either operand true",
        ),
    );
    list.push(
        Symbol::new(
            "¬",
            SymbolMeaning::Not,
            SymbolCategory::Logical,
            "Logical NOT - inverts boolean value",
        ),
    );
    list.push(
        Symbol::new(
            "⊻",
            SymbolMeaning::Xor,
            SymbolCategory::Logical,
            "Logical XOR - true if exactly one operand true",
        ),
    );
    proof {
        assert(list@ =~= old(list)@ + logical_symbols());
    }
}

/// The glyphs of assignment and binding.
pub open spec fn assignment_symbols() -> Seq<Symbol> {
    seq![
        Symbol {
            glyph: "⚙︎",
            meaning: SymbolMeaning::Assign,
            category: SymbolCategory::Operator,
            description: "Assignment - evaluates and assigns to variable",
        },
        Symbol {
            glyph: "→",
            meaning: SymbolMeaning::Arrow,
            category: SymbolCategory::Operator,
            description: "Arrow - directs result to target variable",
        },
        Symbol {
            glyph: "≔",
            meaning: SymbolMeaning::Bind,
            category: SymbolCategory::Operator,
            description: "Bind - creates immutable binding",
        },
    ]
}

fn add_assignment_symbols(list: &mut Vec<Symbol>)
    ensures
        final(list)@ == old(list)@ + assignment_symbols(),
{
    list.push(
        Symbol::new(
            "⚙︎",
            SymbolMeaning::Assign,
            SymbolCategory::Operator,
            "Assignment - evaluates and assigns to variable",
        ),
    );
    list.push(
        Symbol::new(
            "→",
            SymbolMeaning::Arrow,
            SymbolCategory::Operator,
            "Arrow - directs result to target variable",
        ),
    );
    list.push(
        Symbol::new(
            "≔",
            SymbolMeaning::Bind,
            SymbolCategory::Operator,
            "Bind - creates immutable binding",
        ),
    );
    proof {
        assert(list@ =~= old(list)@ + assignment_symbols());
    }
}

/// The glyphs of input and output.
pub open spec fn io_symbols() -> Seq<Symbol> {
    seq![
        Symbol {
            glyph: "⚓",
            meaning: SymbolMeaning::Input,
            category: SymbolCategory::InputOutput,
            description: "Input - reads value from user",
        },
        Symbol {
            glyph: "⚡",
            meaning: SymbolMeaning::Output,
            category: SymbolCategory::InputOutput,
            description: "Output - displays variable value",
        },
        Symbol {
            glyph: "✤",
            meaning: SymbolMeaning::Print,
            category: SymbolCategory::InputOutput,
            description: "Print - displays literal text",
        },
        Symbol {
            glyph: "⌥",
            meaning: SymbolMeaning::Debug,
            category: SymbolCategory::InputOutput,
            description: "Debug - displays debug information",
        },
    ]
}

fn add_io_symbols(list: &mut Vec<Symbol>)
    ensures
        final(list)@ == old(list)@ + io_symbols(),
{
    list.push(
        Symbol::new(
            "⚓",
            SymbolMeaning::Input,
            SymbolCategory::InputOutput,
            "Input - reads value from user",
        ),
    );
    list.push(
        Symbol::new(
            "⚡",
            SymbolMeaning::Output,
            SymbolCategory::InputOutput,
            "Output - displays variable value",
        ),
    );
    list.push(
        Symbol::new(
            "✤",
            SymbolMeaning::Print,
            SymbolCategory::InputOutput,
            "Print - displays literal text",
        ),
    );
    list.push(
        Symbol::new(
            "⌥",
            SymbolMeaning::Debug,
            SymbolCategory::InputOutput,
            "Debug - displays debug information",
        ),
    );
    proof {
        assert(list@ =~= old(list)@ + io_symbols());
    }
}

/// The glyphs of loops, conditionals and the end of the program.
pub open spec fn control_symbols() -> Seq<Symbol> {
    seq![
        Symbol {
            glyph: "⊂",
            meaning: SymbolMeaning::LoopStart,
            category: SymbolCategory::ControlFlow,
            description: "Loop start - begins repetition block",
        },
        Symbol {
            glyph: "⊃",
            meaning: SymbolMeaning::LoopEnd,
            category: SymbolCategory::ControlFlow,
            description: "Loop end - ends repetition block",
        },
        Symbol {
            glyph: "⟨",
            meaning: SymbolMeaning::IfStart,
            category: SymbolCategory::ControlFlow,
            description: "If start - begins conditional block",
        },
        Symbol {
            glyph: "⟩",
            meaning: SymbolMeaning::Else,
            category: SymbolCategory::ControlFlow,
            description: "Else - alternative branch",
        },
        Symbol {
            glyph: "⟫",
            meaning: SymbolMeaning::IfEnd,
            category: SymbolCategory::ControlFlow,
            description: "If end - ends conditional block",
        },
        Symbol {
            glyph: "⊗",
            meaning: SymbolMeaning::Break,
            category: SymbolCategory::ControlFlow,
            description: "Break - exits current loop",
        },
        Symbol {
            glyph: "↺",
            meaning: SymbolMeaning::Continue,
            category: SymbolCategory::ControlFlow,
            description: "Continue - skips to next iteration",
        },
        Symbol {
            glyph: "❧",
            meaning: SymbolMeaning::EndProgram,
            category: SymbolCategory::ControlFlow,
            description: "End program - terminates execution",
        },
    ]
}

fn add_control_symbols(list: &mut Vec<Symbol>)
    ensures
        final(list)@ == old(list)@ + control_symbols(),
{
    list.push(
        Symbol::new(
            "⊂",
            SymbolMeaning::LoopStart,
            SymbolCategory::ControlFlow,
            "Loop start - begins repetition block",
        ),
    );
    list.push(
        Symbol::new(
            "⊃",
            SymbolMeaning::LoopEnd,
            SymbolCategory::ControlFlow,
            "Loop end - ends repetition block",
        ),
    );
    list.push(
        Symbol::new(
            "⟨",
            SymbolMeaning::IfStart,
            SymbolCategory::ControlFlow,
            "If start - begins conditional block",
        ),
    );
    list.push(
        Symbol::new(
            "⟩",
            SymbolMeaning::Else,
            SymbolCategory::ControlFlow,
            "Else - alternative branch",
        ),
    );
    list.push(
        Symbol::new(
            "⟫",
            SymbolMeaning::IfEnd,
            SymbolCategory::ControlFlow,
            "If end - ends conditional block",
        ),
    );
    list.push(
        Symbol::new(
            "⊗",
            SymbolMeaning::Break,
            SymbolCategory::ControlFlow,
            "Break - exits current loop",
        ),
    );
    list.push(
        Symbol::new(
            "↺",
            SymbolMeaning::Continue,
            SymbolCategory::ControlFlow,
            "Continue - skips to next iteration",
        ),
    );
    list.push(
        Symbol::new(
            "❧",
            SymbolMeaning::EndProgram,
            SymbolCategory::ControlFlow,
            "End program - terminates execution",
        ),
    );
    proof {
        assert(list@ =~= old(list)@ + control_symbols());
    }
}

/// The glyphs of function definition, return and call.
pub open spec fn function_symbols() -> Seq<Symbol> {
    seq![
        Symbol {
            glyph: "λ",
            meaning: SymbolMeaning::FunctionStart,
            category: SymbolCategory::ControlFlow,
            description: "Function start - begins function definition",
        },
        Symbol {
            glyph: "Λ",
            meaning: SymbolMeaning::FunctionEnd,
            category: SymbolCategory::ControlFlow,
            description: "Function end - ends function definition",
        },
        Symbol {
            glyph: "⤶",
            meaning: SymbolMeaning::Return,
            category: SymbolCategory::ControlFlow,
            description: "Return - returns value from function",
        },
        Symbol {
            glyph: "⤷",
            meaning: SymbolMeaning::Call,
            category: SymbolCategory::ControlFlow,
            description: "Call - invokes a function",
        },
    ]
}

fn add_function_symbols(list: &mut Vec<Symbol>)
    ensures
        final(list)@ == old(list)@ + function_symbols(),
{
    list.push(
        Symbol::new(
            "λ",
            SymbolMeaning::FunctionStart,
            SymbolCategory::ControlFlow,
            "Function start - begins function definition",
        ),
    );
    list.push(
        Symbol::new(
            "Λ",
            SymbolMeaning::FunctionEnd,
            SymbolCategory::ControlFlow,
            "Function end - ends function definition",
        ),
    );
    list.push(
        Symbol::new(
            "⤶",
            SymbolMeaning::Return,
            SymbolCategory::ControlFlow,
            "Return - returns value from function",
        ),
    );
    list.push(
        Symbol::new(
            "⤷",
            SymbolMeaning::Call,
            SymbolCategory::ControlFlow,
            "Call - invokes a function",
        ),
    );
    proof {
        assert(list@ =~= old(list)@ + function_symbols());
    }
}

/// The glyphs of pattern matching.
pub open spec fn match_symbols() -> Seq<Symbol> {
    seq![
        Symbol {
            glyph: "⟡",
            meaning: SymbolMeaning::MatchStart,
            category: SymbolCategory::ControlFlow,
            description: "Match start - begins pattern match expression",
        },
        Symbol {
            glyph: "⟢",
            meaning: SymbolMeaning::MatchArm,
            category: SymbolCategory::ControlFlow,
            description: "Match arm - defines a pattern case",
        },
        Symbol {
            glyph: "⟣",
            meaning: SymbolMeaning::MatchEnd,
            category: SymbolCategory::ControlFlow,
            description: "Match end - ends pattern match expression",
        },
        Symbol {
            glyph: "◇",
            meaning: SymbolMeaning::Wildcard,
            category: SymbolCategory::ControlFlow,
            description: "Wildcard - matches any value",
        },
    ]
}

fn add_match_symbols(list: &mut Vec<Symbol>)
    ensures
        final(list)@ == old(list)@ + match_symbols(),
{
    list.push(
        Symbol::new(
            "⟡",
            SymbolMeaning::MatchStart,
            SymbolCategory::ControlFlow,
            "Match start - begins pattern match expression",
        ),
    );
    list.push(
        Symbol::new(
            "⟢",
            SymbolMeaning::MatchArm,
            SymbolCategory::ControlFlow,
            "Match arm - defines a pattern case",
        ),
    );
    list.push(
        Symbol::new(
            "⟣",
            SymbolMeaning::MatchEnd,
            SymbolCategory::ControlFlow,
            "Match end - ends pattern match expression",
        ),
    );
    list.push(
        Symbol::new(
            "◇",
            SymbolMeaning::Wildcard,
            SymbolCategory::ControlFlow,
            "Wildcard - matches any value",
        ),
    );
    proof {
        assert(list@ =~= old(list)@ + match_symbols());
    }
}

/// The glyphs of the module system.
pub open spec fn module_symbols() -> Seq<Symbol> {
    seq![
        Symbol {
            glyph: "⟲",
            meaning: SymbolMeaning::Import,
            category: SymbolCategory::ControlFlow,
            description: "Import - imports a module",
        },
        Symbol {
            glyph: "⟳",
            meaning: SymbolMeaning::Export,
            category: SymbolCategory::ControlFlow,
            description: "Export - exports a symbol",
        },
        Symbol {
            glyph: "⊷",
            meaning: SymbolMeaning::ModuleAccess,
            category: SymbolCategory::Operator,
            description: "Module access - accesses module member",
        },
    ]
}

fn add_module_symbols(list: &mut Vec<Symbol>)
    ensures
        final(list)@ == old(list)@ + module_symbols(),
{
    list.push(
        Symbol::new(
            "⟲",
            SymbolMeaning::Import,
            SymbolCategory::ControlFlow,
            "Import - imports a module",
        ),
    );
    list.push(
        Symbol::new(
            "⟳",
            SymbolMeaning::Export,
            SymbolCategory::ControlFlow,
            "Export - exports a symbol",
        ),
    );
    list.push(
        Symbol::new(
            "⊷",
            SymbolMeaning::ModuleAccess,
            SymbolCategory::Operator,
            "Module access - accesses module member",
        ),
    );
    proof {
        assert(list@ =~= old(list)@ + module_symbols());
    }
}

/// The glyphs of exception handling.
pub open spec fn exception_symbols() -> Seq<Symbol> {
    seq![
        Symbol {
            glyph: "☄",
            meaning: SymbolMeaning::TryStart,
            category: SymbolCategory::ControlFlow,
            description: "Try - begins protected block",
        },
        Symbol {
            glyph: "☊",
            meaning: SymbolMeaning::CatchBlock,
            category: SymbolCategory::ControlFlow,
            description: "Catch - handles exception",
        },
        Symbol {
            glyph: "☋",
            meaning: SymbolMeaning::FinallyBlock,
            category: SymbolCategory::ControlFlow,
            description: "Finally - always executes",
        },
        Symbol {
            glyph: "⚠",
            meaning: SymbolMeaning::Throw,
            category: SymbolCategory::ControlFlow,
            description: "Throw - raises an exception",
        },
    ]
}

fn add_exception_symbols(list: &mut Vec<Symbol>)
    ensures
        final(list)@ == old(list)@ + exception_symbols(),
{
    list.push(
        Symbol::new(
            "☄",
            SymbolMeaning::TryStart,
            SymbolCategory::ControlFlow,
            "Try - begins protected block",
        ),
    );
    list.push(
        Symbol::new(
            "☊",
            SymbolMeaning::CatchBlock,
            SymbolCategory::ControlFlow,
            "Catch - handles exception",
        ),
    );
    list.push(
        Symbol::new(
            "☋",
            SymbolMeaning::FinallyBlock,
            SymbolCategory::ControlFlow,
            "Finally - always executes",
        ),
    );
    list.push(
        Symbol::new(
            "⚠",
            SymbolMeaning::Throw,
            SymbolCategory::ControlFlow,
            "Throw - raises an exception",
        ),
    );
    proof {
        assert(list@ =~= old(list)@ + exception_symbols());
    }
}

/// The glyphs of map literals.
pub open spec fn map_symbols() -> Seq<Symbol> {
    seq![
        Symbol {
            glyph: "⇒",
            meaning: SymbolMeaning::MapArrow,
            category: SymbolCategory::Operator,
            description: "Map arrow - separates key from value",
        },
        Symbol {
            glyph: "⋄",
            meaning: SymbolMeaning::MapSeparator,
            category: SymbolCategory::Delimiter,
            description: "Map separator - separates entries",
        },
        Symbol {
            glyph: "{",
            meaning: SymbolMeaning::LeftBrace,
            category: SymbolCategory::Delimiter,
            description: "Left brace - opens map literal",
        },
        Symbol {
            glyph: "}",
            meaning: SymbolMeaning::RightBrace,
            category: SymbolCategory::Delimiter,
            description: "Right brace - closes map literal",
        },
    ]
}

fn add_map_symbols(list: &mut Vec<Symbol>)
    ensures
        final(list)@ == old(list)@ + map_symbols(),
{
    list.push(
        Symbol::new(
            "⇒",
            SymbolMeaning::MapArrow,
            SymbolCategory::Operator,
            "Map arrow - separates key from value",
        ),
    );
    list.push(
        Symbol::new(
            "⋄",
            SymbolMeaning::MapSeparator,
            SymbolCategory::Delimiter,
            "Map separator - separates entries",
        ),
    );
    list.push(
        Symbol::new(
            "{",
            SymbolMeaning::LeftBrace,
            SymbolCategory::Delimiter,
            "Left brace - opens map literal",
        ),
    );
    list.push(
        Symbol::new(
            "}",
            SymbolMeaning::RightBrace,
            SymbolCategory::Delimiter,
            "Right brace - closes map literal",
        ),
    );
    proof {
        assert(list@ =~= old(list)@ + map_symbols());
    }
}

/// The glyphs that work on the operand stack.
pub open spec fn stack_symbols() -> Seq<Symbol> {
    seq![
        Symbol {
            glyph: "⇑",
            meaning: SymbolMeaning::Push,
            category: SymbolCategory::Operator,
            description: "Push - pushes value onto stack",
        },
        Symbol {
            glyph: "⇓",
            meaning: SymbolMeaning::Pop,
            category: SymbolCategory::Operator,
            description: "Pop - removes top value from stack",
        },
        Symbol {
            glyph: "⇕",
            meaning: SymbolMeaning::Dup,
            category: SymbolCategory::Operator,
            description: "Dup - duplicates top of stack",
        },
        Symbol {
            glyph: "⇆",
            meaning: SymbolMeaning::Swap,
            category: SymbolCategory::Operator,
            description: "Swap - swaps top two stack values",
        },
        Symbol {
            glyph: "↻",
            meaning: SymbolMeaning::Rotate,
            category: SymbolCategory::Operator,
            description: "Rotate - rotates top three stack values",
        },
    ]
}

fn add_stack_symbols(list: &mut Vec<Symbol>)
    ensures
        final(list)@ == old(list)@ + stack_symbols(),
{
    list.push(
        Symbol::new(
            "⇑",
            SymbolMeaning::Push,
            SymbolCategory::Operator,
            "Push - pushes value onto stack",
        ),
    );
    list.push(
        Symbol::new(
            "⇓",
            SymbolMeaning::Pop,
            SymbolCategory::Operator,
            "Pop - removes top value from stack",
        ),
    );
    list.push(
        Symbol::new(
            "⇕",
            SymbolMeaning::Dup,
            SymbolCategory::Operator,
            "Dup - duplicates top of stack",
        ),
    );
    list.push(
        Symbol::new(
            "⇆",
            SymbolMeaning::Swap,
            SymbolCategory::Operator,
            "Swap - swaps top two stack values",
        ),
    );
    list.push(
        Symbol::new(
            "↻",
            SymbolMeaning::Rotate,
            SymbolCategory::Operator,
            "Rotate - rotates top three stack values",
        ),
    );
    proof {
        assert(list@ =~= old(list)@ + stack_symbols());
    }
}

/// The accumulator and its two operators.
pub open spec fn special_symbols() -> Seq<Symbol> {
    seq![
        Symbol {
            glyph: "✹",
            meaning: SymbolMeaning::Accumulator,
            category: SymbolCategory::Operator,
            description: "Accumulator - special counter variable",
        },
        Symbol {
            glyph: "⊕",
            meaning: SymbolMeaning::Increment,
            category: SymbolCategory::Operator,
            description: "Increment - increases value by one",
        },
        Symbol {
            glyph: "⊖",
            meaning: SymbolMeaning::Decrement,
            category: SymbolCategory::Operator,
            description: "Decrement - decreases value by one",
        },
    ]
}

fn add_special_symbols(list: &mut Vec<Symbol>)
    ensures
        final(list)@ == old(list)@ + special_symbols(),
{
    list.push(
        Symbol::new(
            "✹",
            SymbolMeaning::Accumulator,
            SymbolCategory::Operator,
            "Accumulator - special counter variable",
        ),
    );
    list.push(
        Symbol::new(
            "⊕",
            SymbolMeaning::Increment,
            SymbolCategory::Operator,
            "Increment - increases value by one",
        ),
    );
    list.push(
        Symbol::new(
            "⊖",
            SymbolMeaning::Decrement,
            SymbolCategory::Operator,
            "Decrement - decreases value by one",
        ),
    );
    proof {
        assert(list@ =~= old(list)@ + special_symbols());
    }
}

/// The delimiters.
pub open spec fn delimiter_symbols() -> Seq<Symbol> {
    seq![
        Symbol {
            glyph: "[",
            meaning: SymbolMeaning::LeftBracket,
            category: SymbolCategory::Delimiter,
            description: "Left bracket - opens expression",
        },
        Symbol {
            glyph: "]",
            meaning: SymbolMeaning::RightBracket,
            category: SymbolCategory::Delimiter,
            description: "Right bracket - closes expression",
        },
        Symbol {
            glyph: "(",
            meaning: SymbolMeaning::LeftParen,
            category: SymbolCategory::Delimiter,
            description: "Left paren - groups expression",
        },
        Symbol {
            glyph: ")",
            meaning: SymbolMeaning::RightParen,
            category: SymbolCategory::Delimiter,
            description: "Right paren - ends grouping",
        },
        Symbol {
            glyph: ",",
            meaning: SymbolMeaning::Separator,
            category: SymbolCategory::Delimiter,
            description: "Separator - separates arguments",
        },
        Symbol {
            glyph: "⁂",
            meaning: SymbolMeaning::Terminator,
            category: SymbolCategory::Delimiter,
            description: "Terminator - ends statement",
        },
    ]
}

fn add_delimiter_symbols(list: &mut Vec<Symbol>)
    ensures
        final(list)@ == old(list)@ + delimiter_symbols(),
{
    list.push(
        Symbol::new(
            "[",
            SymbolMeaning::LeftBracket,
            SymbolCategory::Delimiter,
            "Left bracket - opens expression",
        ),
    );
    list.push(
        Symbol::new(
            "]",
            SymbolMeaning::RightBracket,
            SymbolCategory::Delimiter,
            "Right bracket - closes expression",
        ),
    );
    list.push(
        Symbol::new(
            "(",
            SymbolMeaning::LeftParen,
            SymbolCategory::Delimiter,
            "Left paren - groups expression",
        ),
    );
    list.push(
        Symbol::new(
            ")",
            SymbolMeaning::RightParen,
            SymbolCategory::Delimiter,
            "Right paren - ends grouping",
        ),
    );
    list.push(
        Symbol::new(
            ",",
            SymbolMeaning::Separator,
            SymbolCategory::Delimiter,
            "Separator - separates arguments",
        ),
    );
    list.push(
        Symbol::new(
            "⁂",
            SymbolMeaning::Terminator,
            SymbolCategory::Delimiter,
            "Terminator - ends statement",
        ),
    );
    proof {
        assert(list@ =~= old(list)@ + delimiter_symbols());
    }
}

/// The standard symbols of the language, in the order of their registration.
pub open spec fn standard_symbols() -> Seq<Symbol> {
    Seq::<Symbol>::empty() + type_symbols() + value_symbols() + arithmetic_symbols() + comparison_symbols() + logical_symbols() + assignment_symbols() + io_symbols() + control_symbols() + function_symbols() + match_symbols() + module_symbols() + exception_symbols() + map_symbols() + stack_symbols() + special_symbols() + delimiter_symbols()
}

/// The standard symbols of the language, in the order of their registration.
pub fn standard_symbol_list() -> (list: Vec<Symbol>)
    ensures
        list@ == standard_symbols(),
{
    let mut list: Vec<Symbol> = Vec::new();
    add_type_symbols(&mut list);
    add_value_symbols(&mut list);
    add_arithmetic_symbols(&mut list);
    add_comparison_symbols(&mut list);
    add_logical_symbols(&mut list);
    add_assignment_symbols(&mut list);
    add_io_symbols(&mut list);
    add_control_symbols(&mut list);
    add_function_symbols(&mut list);
    add_match_symbols(&mut list);
    add_module_symbols(&mut list);
    add_exception_symbols(&mut list);
    add_map_symbols(&mut list);
    add_stack_symbols(&mut list);
    add_special_symbols(&mut list);
    add_delimiter_symbols(&mut list);
    list
}

/// The table that registering `symbols` one after the other gives: a glyph
/// stands for the symbol that was registered last under it.
pub open spec fn table_of(symbols: Seq<Symbol>) -> Map<Seq<char>, Symbol>
    decreases symbols.len(),
{
    if symbols.len() == 0 {
        Map::empty()
    } else {
        table_of(symbols.drop_last()).insert(symbols.last().glyph@, symbols.last())
    }
}

/// The length in code points of the longest glyph among `symbols`, and at
/// least 1.
pub open spec fn longest_glyph(symbols: Seq<Symbol>) -> nat
    decreases symbols.len(),
{
    if symbols.len() == 0 {
        1
    } else if symbols.last().glyph@.len() > longest_glyph(symbols.drop_last()) {
        symbols.last().glyph@.len()
    } else {
        longest_glyph(symbols.drop_last())
    }
}

/// The symbols of a category among `symbols`, in their order.
pub open spec fn in_category(symbols: Seq<Symbol>, category: SymbolCategory) -> Seq<Symbol>
    decreases symbols.len(),
{
    if symbols.len() == 0 {
        symbols
    } else if symbols.last().category == category {
        in_category(symbols.drop_last(), category).push(symbols.last())
    } else {
        in_category(symbols.drop_last(), category)
    }
}

/// Whether a list holds a symbol of a glyph.
pub open spec fn has_glyph(list: Seq<Symbol>, glyph: Seq<char>) -> bool {
    exists|p: int| 0 <= p < list.len() && (#[trigger] list[p]).glyph@ == glyph
}

/// A position at which a list holds a symbol of a glyph.
pub open spec fn place_of(list: Seq<Symbol>, glyph: Seq<char>) -> int {
    choose|p: int| 0 <= p < list.len() && (#[trigger] list[p]).glyph@ == glyph
}

/// The list after a symbol was registered: a symbol whose glyph the list
/// holds takes the place of the one that was there, and any other goes to
/// the end.
pub open spec fn with_symbol(list: Seq<Symbol>, symbol: Symbol) -> Seq<Symbol> {
    if has_glyph(list, symbol.glyph@) {
        list.update(place_of(list, symbol.glyph@), symbol)
    } else {
        list.push(symbol)
    }
}

/// The list of a table in which the symbols were registered in their
/// order: each glyph stands once, where it was first registered, with the
/// symbol that was registered for it last.
pub open spec fn registered(symbols: Seq<Symbol>) -> Seq<Symbol>
    decreases symbols.len(),
{
    if symbols.len() == 0 {
        symbols
    } else {
        with_symbol(registered(symbols.drop_last()), symbols.last())
    }
}

pub proof fn lemma_longest_glyph_bounds(symbols: Seq<Symbol>, glyph: Seq<char>)
    requires
        table_of(symbols).contains_key(glyph),
    ensures
        glyph.len() <= longest_glyph(symbols),
        table_of(symbols)[glyph].glyph@ == glyph,
    decreases symbols.len(),
{
    if symbols.len() > 0 {
        if symbols.last().glyph@ != glyph {
            lemma_longest_glyph_bounds(symbols.drop_last(), glyph);
        }
    }
}

/// The symbol table: the registry that maps each glyph to its role.
#[derive(Debug)]
pub struct SymbolTable {
    symbols: Vec<Symbol>,
    index: NameIndex,
    max_glyph_len: usize,
}

impl View for SymbolTable {
    type V = Map<Seq<char>, Symbol>;

    /// The symbols of the table, by glyph.
    closed spec fn view(&self) -> Map<Seq<char>, Symbol> {
        Map::new(
            |glyph: Seq<char>| name_index_entries(self.index.map).contains_key(glyph),
            |glyph: Seq<char>| self.symbols@[name_index_entries(self.index.map)[glyph] as int],
        )
    }
}

impl SymbolTable {
    /// The symbols in the order in which their glyphs were first registered.
    pub closed spec fn listed(&self) -> Seq<Symbol> {
        self.symbols@
    }

    /// The number that bounds the length of every glyph of the table.
    pub closed spec fn longest(&self) -> nat {
        self.max_glyph_len as nat
    }

    /// The table of positions agrees with the list of symbols, and no glyph
    /// is longer than the recorded maximum.
    pub closed spec fn well_formed(&self) -> bool {
        &&& self.max_glyph_len >= 1
        &&& forall|i: int|
            0 <= i < self.symbols@.len() ==> name_index_entries(self.index.map).contains_key(
                (#[trigger] self.symbols@[i]).glyph@,
            ) && name_index_entries(self.index.map)[self.symbols@[i].glyph@] == i
                && self.symbols@[i].glyph@.len() <= self.max_glyph_len
        &&& forall|glyph: Seq<char>|
            (#[trigger] name_index_entries(self.index.map).contains_key(glyph)) ==> name_index_entries(self.index.map)[glyph] < self.symbols@.len() && self.symbols@[name_index_entries(self.index.map)[glyph] as int].glyph@ == glyph
    }

    /// Every glyph of a well-formed table is found under itself and is no
    /// longer than the table's maximum.
    pub proof fn lemma_glyphs(&self, glyph: Seq<char>)
        requires
            self.well_formed(),
            self@.contains_key(glyph),
        ensures
            self@[glyph].glyph@ == glyph,
            glyph.len() <= self.longest(),
    {
    }

    fn empty() -> (r: Self)
        ensures
            r.well_formed(),
            r@ == table_of(Seq::empty()),
            r.listed() == Seq::<Symbol>::empty(),
            r.longest() == 1,
    {
        let r = Self { symbols: Vec::new(), index: NameIndex::new(), max_glyph_len: 1 };
        proof {
            assert(name_index_entries(r.index.map) == no_entries());
            assert(r@ =~= Map::<Seq<char>, Symbol>::empty());
        }
        r
    }

    /// Register a single symbol. A glyph that is registered again stands for
    /// the new symbol.
    fn register(&mut self, symbol: Symbol)
        requires
            old(self).well_formed(),
        ensures
            final(self).well_formed(),
            final(self)@ == old(self)@.insert(symbol.glyph@, symbol),
            final(self).listed() == with_symbol(old(self).listed(), symbol),
            final(self).longest() == (if symbol.glyph@.len() > old(self).longest() {
                symbol.glyph@.len()
            } else {
                old(self).longest()
            }),
    {
        let glyph_len = symbol.glyph.unicode_len();
        if glyph_len > self.max_glyph_len {
            self.max_glyph_len = glyph_len;
        }
        match self.index.get(symbol.glyph) {
            Some(position) => {
                proof {
                    let list = self.symbols@;
                    assert(list[position as int].glyph@ == symbol.glyph@);
                    let p = place_of(list, symbol.glyph@);
                    assert(list[p].glyph@ == symbol.glyph@);
                    assert(p == position);
                }
                self.symbols[position] = symbol;
            },
            None => {
                proof {
                    let list = self.symbols@;
                    if has_glyph(list, symbol.glyph@) {
                        let p = choose|p: int|
                            0 <= p < list.len() && (#[trigger] list[p]).glyph@ == symbol.glyph@;
                        assert(name_index_entries(self.index.map).contains_key(list[p].glyph@));
                    }
                }
                let position = self.symbols.len();
                self.index.insert(symbol.glyph, position);
                self.symbols.push(symbol);
            },
        }
        proof {
            assert(self@ =~= old(self)@.insert(symbol.glyph@, symbol));
        }
    }

    /// The table that holds the given symbols, registered in their order.
    pub fn from_symbols(symbols: &Vec<Symbol>) -> (r: Self)
        ensures
            r.well_formed(),
            r@ == table_of(symbols@),
            r.listed() == registered(symbols@),
            r.longest() == longest_glyph(symbols@),
    {
        let mut table = Self::empty();
        let mut i: usize = 0;
        while i < symbols.len()
            invariant
                i <= symbols.len(),
                table.well_formed(),
                table@ == table_of(symbols@.take(i as int)),
                table.listed() == registered(symbols@.take(i as int)),
                table.longest() == longest_glyph(symbols@.take(i as int)),
            decreases symbols.len() - i,
        {
            proof {
                assert(symbols@.take(i + 1).drop_last() =~= symbols@.take(i as int));
                assert(symbols@.take(i + 1).last() == symbols@[i as int]);
            }
            table.register(symbols[i]);
            i += 1;
        }
        proof {
            assert(symbols@.take(i as int) =~= symbols@);
        }
        table
    }

    /// Create a new symbol table with all standard symbols.
    pub fn new() -> (r: Self)
        ensures
            r.well_formed(),
            r@ == table_of(standard_symbols()),
            r.listed() == registered(standard_symbols()),
            r.longest() == longest_glyph(standard_symbols()),
    {
        let list = standard_symbol_list();
        Self::from_symbols(&list)
    }

    /// Look up a symbol by its glyph. The glyph must match code point for
    /// code point.
    pub fn lookup(&self, glyph: &str) -> (r: Option<&Symbol>)
        requires
            self.well_formed(),
        ensures
            self@.contains_key(glyph@) ==> r == Some(&self@[glyph@]),
            !self@.contains_key(glyph@) ==> r is None,
            r matches Some(symbol) ==> symbol.glyph@ == glyph@,
    {
        match self.index.get(glyph) {
            Some(position) => Some(&self.symbols[position]),
            None => None,
        }
    }

    /// Get the maximum glyph length in code points (for lexer lookahead).
    pub fn max_glyph_length(&self) -> (n: usize)
        ensures
            n == self.longest(),
    {
        self.max_glyph_len
    }

    /// Check if a glyph exists in the table.
    pub fn contains(&self, glyph: &str) -> (b: bool)
        ensures
            b == self@.contains_key(glyph@),
    {
        self.index.get(glyph).is_some()
    }

    /// Get all symbols of a specific category, in the order of their
    /// registration.
    pub fn symbols_in_category(&self, category: SymbolCategory) -> (r: Vec<Symbol>)
        ensures
            r@ == in_category(self.listed(), category),
    {
        let mut found: Vec<Symbol> = Vec::new();
        let mut i: usize = 0;
        while i < self.symbols.len()
            invariant
                i <= self.symbols.len(),
                found@ == in_category(self.symbols@.take(i as int), category),
            decreases self.symbols.len() - i,
        {
            proof {
                assert(self.symbols@.take(i + 1).drop_last() =~= self.symbols@.take(i as int));
                assert(self.symbols@.take(i + 1).last() == self.symbols@[i as int]);
            }
            if self.symbols[i].category == category {
                found.push(self.symbols[i]);
            }
            i += 1;
        }
        proof {
            assert(self.symbols@.take(i as int) =~= self.symbols@);
        }
        found
    }
}

impl Default for SymbolTable {
    fn default() -> (r: Self)
        ensures
            r.well_formed(),
            r@ == table_of(standard_symbols()),
            r.listed() == registered(standard_symbols()),
            r.longest() == longest_glyph(standard_symbols()),
    {
        Self::new()
    }
}

} // verus!
