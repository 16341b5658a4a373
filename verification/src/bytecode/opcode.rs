use vstd::prelude::*;
use vstd::string::StringExecFns;
use crate::bytecode::value::{
    entry_views_of, group_value_views, views_of, Closure, Value, ValueView,
};
use crate::number::{Real, RealRequest, ONE_BITS};
use crate::text::{
    concat, decimal_of, integer_to_string, parse_integer, parsed_integer, push_char, str_eq,
    unsigned_to_string,
};

verus! {

broadcast use {vstd::std_specs::vec::group_vec_axioms, group_value_views};

/// The instructions of the virtual machine.
///
/// Each instruction is one byte, followed by a fixed number of operand bytes.
#[derive(Clone, Copy, Debug, PartialEq, Eq)]
pub enum OpCode {
    /// Push a constant (16-bit pool index follows).
    Const,
    /// Push the null value.
    Null,
    /// Push true.
    True,
    /// Push false.
    False,
    /// Discard the top of the stack.
    Pop,
    /// Duplicate the top of the stack.
    Dup,
    /// Swap the two topmost values.
    Swap,
    /// Rotate the three topmost values (a b c becomes c a b).
    Rot,
    /// Declare a variable (16-bit name index and a type byte follow).
    DeclareVar,
    /// Push a variable's value (16-bit name index follows).
    LoadVar,
    /// Pop into a variable (16-bit name index follows).
    StoreVar,
    /// Push a global's value.
    LoadGlobal,
    /// Pop into a global.
    StoreGlobal,
    Add,
    Sub,
    Mul,
    Div,
    Mod,
    Pow,
    Neg,
    Inc,
    Dec,
    Eq,
    Ne,
    Lt,
    Gt,
    Le,
    Ge,
    And,
    Or,
    Not,
    Xor,
    /// Jump forward (16-bit displacement follows).
    Jump,
    /// Pop a condition and jump forward when it is falsy.
    JumpIfFalse,
    /// Pop a condition and jump forward when it is truthy.
    JumpIfTrue,
    /// Jump backward (16-bit distance follows).
    Loop,
    Break,
    Continue,
    /// Call a function (16-bit function index and an arity byte follow).
    Call,
    /// Return from the current function.
    Return,
    /// Function definition marker; skipped at run time.
    DefineFunc,
    /// Push a function reference.
    LoadFunc,
    /// Call the function or closure on top of the stack (arity byte follows).
    CallClosure,
    /// Build an array from the topmost values (16-bit count follows).
    MakeArray,
    ArrayGet,
    ArraySet,
    ArrayLen,
    ArrayPush,
    /// Build a map from the topmost key/value pairs (16-bit count follows).
    MakeMap,
    MapGet,
    MapSet,
    MapHas,
    MapRemove,
    MapKeys,
    MapValues,
    /// Build a closure (16-bit function index and a capture count follow).
    MakeClosure,
    /// Push a captured value (16-bit capture index follows).
    LoadCapture,
    /// Pop into a captured value (16-bit capture index follows).
    StoreCapture,
    MatchBegin,
    MatchArm,
    MatchEnd,
    MatchWildcard,
    MatchBind,
    Import,
    Export,
    LoadModule,
    /// Install an exception handler (16-bit handler displacement follows).
    TryBegin,
    /// Remove the innermost exception handler.
    TryEnd,
    /// Raise the value on top of the stack.
    Throw,
    /// Bind the exception in flight to a variable.
    Catch,
    /// Marks the start of a finally block.
    Finally,
    /// Pop a value and print it.
    Print,
    /// Print a pooled string (16-bit index follows).
    PrintLit,
    /// Read a line into a variable (16-bit name index and a type byte follow).
    Input,
    /// Show the top of the stack without removing it.
    Debug,
    /// Push the accumulator.
    LoadAcc,
    /// Pop into the accumulator.
    StoreAcc,
    /// Add one to the accumulator.
    IncAcc,
    /// Subtract one from the accumulator.
    DecAcc,
    /// Concatenate the display forms of two values.
    Concat,
    /// Convert the top of the stack (target type byte follows).
    Convert,
    /// Fill a template (16-bit string index and a value count follow).
    Interpolate,
    /// Do nothing.
    Nop,
    /// Stop the machine.
    Halt,
}

impl OpCode {
    /// The byte that encodes this instruction.
    pub open spec fn byte(self) -> u8 {
        match self {
            OpCode::Const => 0x01,
            OpCode::Null => 0x02,
            OpCode::True => 0x03,
            OpCode::False => 0x04,
            OpCode::Pop => 0x05,
            OpCode::Dup => 0x06,
            OpCode::Swap => 0x07,
            OpCode::Rot => 0x08,
            OpCode::DeclareVar => 0x10,
            OpCode::LoadVar => 0x11,
            OpCode::StoreVar => 0x12,
            OpCode::LoadGlobal => 0x13,
            OpCode::StoreGlobal => 0x14,
            OpCode::Add => 0x20,
            OpCode::Sub => 0x21,
            OpCode::Mul => 0x22,
            OpCode::Div => 0x23,
            OpCode::Mod => 0x24,
            OpCode::Pow => 0x25,
            OpCode::Neg => 0x26,
            OpCode::Inc => 0x27,
            OpCode::Dec => 0x28,
            OpCode::Eq => 0x30,
            OpCode::Ne => 0x31,
            OpCode::Lt => 0x32,
            OpCode::Gt => 0x33,
            OpCode::Le => 0x34,
            OpCode::Ge => 0x35,
            OpCode::And => 0x40,
            OpCode::Or => 0x41,
            OpCode::Not => 0x42,
            OpCode::Xor => 0x43,
            OpCode::Jump => 0x50,
            OpCode::JumpIfFalse => 0x51,
            OpCode::JumpIfTrue => 0x52,
            OpCode::Loop => 0x53,
            OpCode::Break => 0x54,
            OpCode::Continue => 0x55,
            OpCode::Call => 0x60,
            OpCode::Return => 0x61,
            OpCode::DefineFunc => 0x62,
            OpCode::LoadFunc => 0x63,
            OpCode::CallClosure => 0x5E,
            OpCode::MakeArray => 0x64,
            OpCode::ArrayGet => 0x65,
            OpCode::ArraySet => 0x66,
            OpCode::ArrayLen => 0x67,
            OpCode::ArrayPush => 0x68,
            OpCode::MakeMap => 0x69,
            OpCode::MapGet => 0x6A,
            OpCode::MapSet => 0x6B,
            OpCode::MapHas => 0x6C,
            OpCode::MapRemove => 0x6D,
            OpCode::MapKeys => 0x6E,
            OpCode::MapValues => 0x6F,
            OpCode::MakeClosure => 0xA0,
            OpCode::LoadCapture => 0xA1,
            OpCode::StoreCapture => 0xA2,
            OpCode::MatchBegin => 0xA3,
            OpCode::MatchArm => 0xA4,
            OpCode::MatchEnd => 0xA5,
            OpCode::MatchWildcard => 0xA6,
            OpCode::MatchBind => 0xA7,
            OpCode::Import => 0xA8,
            OpCode::Export => 0xA9,
            OpCode::LoadModule => 0xAA,
            OpCode::TryBegin => 0xB0,
            OpCode::TryEnd => 0xB1,
            OpCode::Throw => 0xB2,
            OpCode::Catch => 0xB3,
            OpCode::Finally => 0xB4,
            OpCode::Print => 0x70,
            OpCode::PrintLit => 0x71,
            OpCode::Input => 0x72,
            OpCode::Debug => 0x73,
            OpCode::LoadAcc => 0x80,
            OpCode::StoreAcc => 0x81,
            OpCode::IncAcc => 0x82,
            OpCode::DecAcc => 0x83,
            OpCode::Concat => 0x90,
            OpCode::Convert => 0x91,
            OpCode::Interpolate => 0x92,
            OpCode::Nop => 0xFE,
            OpCode::Halt => 0xFF,
        }
    }

    /// The instruction that `byte` encodes, if it encodes one.
    pub open spec fn decode(byte: u8) -> Option<OpCode> {
        if byte == 0x01 {
            Some(OpCode::Const)
        }         else if byte == 0x02 {
            Some(OpCode::Null)
        }         else if byte == 0x03 {
            Some(OpCode::True)
        }         else if byte == 0x04 {
            Some(OpCode::False)
        }         else if byte == 0x05 {
            Some(OpCode::Pop)
        }         else if byte == 0x06 {
            Some(OpCode::Dup)
        }         else if byte == 0x07 {
            Some(OpCode::Swap)
        }         else if byte == 0x08 {
            Some(OpCode::Rot)
        }         else if byte == 0x10 {
            Some(OpCode::DeclareVar)
        }         else if byte == 0x11 {
            Some(OpCode::LoadVar)
        }         else if byte == 0x12 {
            Some(OpCode::StoreVar)
        }         else if byte == 0x13 {
            Some(OpCode::LoadGlobal)
        }         else if byte == 0x14 {
            Some(OpCode::StoreGlobal)
        }         else if byte == 0x20 {
            Some(OpCode::Add)
        }         else if byte == 0x21 {
            Some(OpCode::Sub)
        }         else if byte == 0x22 {
            Some(OpCode::Mul)
        }         else if byte == 0x23 {
            Some(OpCode::Div)
        }         else if byte == 0x24 {
            Some(OpCode::Mod)
        }         else if byte == 0x25 {
            Some(OpCode::Pow)
        }         else if byte == 0x26 {
            Some(OpCode::Neg)
        }         else if byte == 0x27 {
            Some(OpCode::Inc)
        }         else if byte == 0x28 {
            Some(OpCode::Dec)
        }         else if byte == 0x30 {
            Some(OpCode::Eq)
        }         else if byte == 0x31 {
            Some(OpCode::Ne)
        }         else if byte == 0x32 {
            Some(OpCode::Lt)
        }         else if byte == 0x33 {
            Some(OpCode::Gt)
        }         else if byte == 0x34 {
            Some(OpCode::Le)
        }         else if byte == 0x35 {
            Some(OpCode::Ge)
        }         else if byte == 0x40 {
            Some(OpCode::And)
        }         else if byte == 0x41 {
            Some(OpCode::Or)
        }         else if byte == 0x42 {
            Some(OpCode::Not)
        }         else if byte == 0x43 {
            Some(OpCode::Xor)
        }         else if byte == 0x50 {
            Some(OpCode::Jump)
        }         else if byte == 0x51 {
            Some(OpCode::JumpIfFalse)
        }         else if byte == 0x52 {
            Some(OpCode::JumpIfTrue)
        }         else if byte == 0x53 {
            Some(OpCode::Loop)
        }         else if byte == 0x54 {
            Some(OpCode::Break)
        }         else if byte == 0x55 {
            Some(OpCode::Continue)
        }         else if byte == 0x60 {
            Some(OpCode::Call)
        }         else if byte == 0x61 {
            Some(OpCode::Return)
        }         else if byte == 0x62 {
            Some(OpCode::DefineFunc)
        }         else if byte == 0x63 {
            Some(OpCode::LoadFunc)
        }         else if byte == 0x5E {
            Some(OpCode::CallClosure)
        }         else if byte == 0x64 {
            Some(OpCode::MakeArray)
        }         else if byte == 0x65 {
            Some(OpCode::ArrayGet)
        }         else if byte == 0x66 {
            Some(OpCode::ArraySet)
        }         else if byte == 0x67 {
            Some(OpCode::ArrayLen)
        }         else if byte == 0x68 {
            Some(OpCode::ArrayPush)
        }         else if byte == 0x69 {
            Some(OpCode::MakeMap)
        }         else if byte == 0x6A {
            Some(OpCode::MapGet)
        }         else if byte == 0x6B {
            Some(OpCode::MapSet)
        }         else if byte == 0x6C {
            Some(OpCode::MapHas)
        }         else if byte == 0x6D {
            Some(OpCode::MapRemove)
        }         else if byte == 0x6E {
            Some(OpCode::MapKeys)
        }         else if byte == 0x6F {
            Some(OpCode::MapValues)
        }         else if byte == 0xA0 {
            Some(OpCode::MakeClosure)
        }         else if byte == 0xA1 {
            Some(OpCode::LoadCapture)
        }         else if byte == 0xA2 {
            Some(OpCode::StoreCapture)
        }         else if byte == 0xA3 {
            Some(OpCode::MatchBegin)
        }         else if byte == 0xA4 {
            Some(OpCode::MatchArm)
        }         else if byte == 0xA5 {
            Some(OpCode::MatchEnd)
        }         else if byte == 0xA6 {
            Some(OpCode::MatchWildcard)
        }         else if byte == 0xA7 {
            Some(OpCode::MatchBind)
        }         else if byte == 0xA8 {
            Some(OpCode::Import)
        }         else if byte == 0xA9 {
            Some(OpCode::Export)
        }         else if byte == 0xAA {
            Some(OpCode::LoadModule)
        }         else if byte == 0xB0 {
            Some(OpCode::TryBegin)
        }         else if byte == 0xB1 {
            Some(OpCode::TryEnd)
        }         else if byte == 0xB2 {
            Some(OpCode::Throw)
        }         else if byte == 0xB3 {
            Some(OpCode::Catch)
        }         else if byte == 0xB4 {
            Some(OpCode::Finally)
        }         else if byte == 0x70 {
            Some(OpCode::Print)
        }         else if byte == 0x71 {
            Some(OpCode::PrintLit)
        }         else if byte == 0x72 {
            Some(OpCode::Input)
        }         else if byte == 0x73 {
            Some(OpCode::Debug)
        }         else if byte == 0x80 {
            Some(OpCode::LoadAcc)
        }         else if byte == 0x81 {
            Some(OpCode::StoreAcc)
        }         else if byte == 0x82 {
            Some(OpCode::IncAcc)
        }         else if byte == 0x83 {
            Some(OpCode::DecAcc)
        }         else if byte == 0x90 {
            Some(OpCode::Concat)
        }         else if byte == 0x91 {
            Some(OpCode::Convert)
        }         else if byte == 0x92 {
            Some(OpCode::Interpolate)
        }         else if byte == 0xFE {
            Some(OpCode::Nop)
        }         else if byte == 0xFF {
            Some(OpCode::Halt)
        } else {
            None
        }
    }

    /// Number of operand bytes that follow this instruction.
    pub open spec fn operand_bytes(self) -> nat {
        match self {
            OpCode::Convert
            | OpCode::CallClosure
            | OpCode::MatchBegin => 1,
            OpCode::Const
            | OpCode::LoadVar
            | OpCode::StoreVar
            | OpCode::LoadGlobal
            | OpCode::StoreGlobal
            | OpCode::Jump
            | OpCode::JumpIfFalse
            | OpCode::JumpIfTrue
            | OpCode::Loop
            | OpCode::LoadFunc
            | OpCode::PrintLit
            | OpCode::MakeArray
            | OpCode::MakeMap
            | OpCode::LoadCapture
            | OpCode::StoreCapture
            | OpCode::MatchArm
            | OpCode::MatchBind
            | OpCode::Import
            | OpCode::Export
            | OpCode::TryBegin
            | OpCode::Catch => 2,
            OpCode::DeclareVar
            | OpCode::Call
            | OpCode::Input
            | OpCode::Interpolate
            | OpCode::MakeClosure => 3,
            OpCode::LoadModule => 4,
            OpCode::DefineFunc => 5,
            _ => 0,
        }
    }

    pub fn to_byte(self) -> (b: u8)
        ensures
            b == self.byte(),
            OpCode::decode(b) == Some(self),
    {
        match self {
            OpCode::Const => 0x01,
            OpCode::Null => 0x02,
            OpCode::True => 0x03,
            OpCode::False => 0x04,
            OpCode::Pop => 0x05,
            OpCode::Dup => 0x06,
            OpCode::Swap => 0x07,
            OpCode::Rot => 0x08,
            OpCode::DeclareVar => 0x10,
            OpCode::LoadVar => 0x11,
            OpCode::StoreVar => 0x12,
            OpCode::LoadGlobal => 0x13,
            OpCode::StoreGlobal => 0x14,
            OpCode::Add => 0x20,
            OpCode::Sub => 0x21,
            OpCode::Mul => 0x22,
            OpCode::Div => 0x23,
            OpCode::Mod => 0x24,
            OpCode::Pow => 0x25,
            OpCode::Neg => 0x26,
            OpCode::Inc => 0x27,
            OpCode::Dec => 0x28,
            OpCode::Eq => 0x30,
            OpCode::Ne => 0x31,
            OpCode::Lt => 0x32,
            OpCode::Gt => 0x33,
            OpCode::Le => 0x34,
            OpCode::Ge => 0x35,
            OpCode::And => 0x40,
            OpCode::Or => 0x41,
            OpCode::Not => 0x42,
            OpCode::Xor => 0x43,
            OpCode::Jump => 0x50,
            OpCode::JumpIfFalse => 0x51,
            OpCode::JumpIfTrue => 0x52,
            OpCode::Loop => 0x53,
            OpCode::Break => 0x54,
            OpCode::Continue => 0x55,
            OpCode::Call => 0x60,
            OpCode::Return => 0x61,
            OpCode::DefineFunc => 0x62,
            OpCode::LoadFunc => 0x63,
            OpCode::CallClosure => 0x5E,
            OpCode::MakeArray => 0x64,
            OpCode::ArrayGet => 0x65,
            OpCode::ArraySet => 0x66,
            OpCode::ArrayLen => 0x67,
            OpCode::ArrayPush => 0x68,
            OpCode::MakeMap => 0x69,
            OpCode::MapGet => 0x6A,
            OpCode::MapSet => 0x6B,
            OpCode::MapHas => 0x6C,
            OpCode::MapRemove => 0x6D,
            OpCode::MapKeys => 0x6E,
            OpCode::MapValues => 0x6F,
            OpCode::MakeClosure => 0xA0,
            OpCode::LoadCapture => 0xA1,
            OpCode::StoreCapture => 0xA2,
            OpCode::MatchBegin => 0xA3,
            OpCode::MatchArm => 0xA4,
            OpCode::MatchEnd => 0xA5,
            OpCode::MatchWildcard => 0xA6,
            OpCode::MatchBind => 0xA7,
            OpCode::Import => 0xA8,
            OpCode::Export => 0xA9,
            OpCode::LoadModule => 0xAA,
            OpCode::TryBegin => 0xB0,
            OpCode::TryEnd => 0xB1,
            OpCode::Throw => 0xB2,
            OpCode::Catch => 0xB3,
            OpCode::Finally => 0xB4,
            OpCode::Print => 0x70,
            OpCode::PrintLit => 0x71,
            OpCode::Input => 0x72,
            OpCode::Debug => 0x73,
            OpCode::LoadAcc => 0x80,
            OpCode::StoreAcc => 0x81,
            OpCode::IncAcc => 0x82,
            OpCode::DecAcc => 0x83,
            OpCode::Concat => 0x90,
            OpCode::Convert => 0x91,
            OpCode::Interpolate => 0x92,
            OpCode::Nop => 0xFE,
            OpCode::Halt => 0xFF,
        }
    }

    /// Reads an instruction byte, refusing every byte that encodes nothing.
    pub fn from_byte(byte: u8) -> (r: Option<OpCode>)
        ensures
            r == OpCode::decode(byte),
            r matches Some(op) ==> op.byte() == byte,
    {
        match byte {
            0x01 => Some(OpCode::Const),
            0x02 => Some(OpCode::Null),
            0x03 => Some(OpCode::True),
            0x04 => Some(OpCode::False),
            0x05 => Some(OpCode::Pop),
            0x06 => Some(OpCode::Dup),
            0x07 => Some(OpCode::Swap),
            0x08 => Some(OpCode::Rot),
            0x10 => Some(OpCode::DeclareVar),
            0x11 => Some(OpCode::LoadVar),
            0x12 => Some(OpCode::StoreVar),
            0x13 => Some(OpCode::LoadGlobal),
            0x14 => Some(OpCode::StoreGlobal),
            0x20 => Some(OpCode::Add),
            0x21 => Some(OpCode::Sub),
            0x22 => Some(OpCode::Mul),
            0x23 => Some(OpCode::Div),
            0x24 => Some(OpCode::Mod),
            0x25 => Some(OpCode::Pow),
            0x26 => Some(OpCode::Neg),
            0x27 => Some(OpCode::Inc),
            0x28 => Some(OpCode::Dec),
            0x30 => Some(OpCode::Eq),
            0x31 => Some(OpCode::Ne),
            0x32 => Some(OpCode::Lt),
            0x33 => Some(OpCode::Gt),
            0x34 => Some(OpCode::Le),
            0x35 => Some(OpCode::Ge),
            0x40 => Some(OpCode::And),
            0x41 => Some(OpCode::Or),
            0x42 => Some(OpCode::Not),
            0x43 => Some(OpCode::Xor),
            0x50 => Some(OpCode::Jump),
            0x51 => Some(OpCode::JumpIfFalse),
            0x52 => Some(OpCode::JumpIfTrue),
            0x53 => Some(OpCode::Loop),
            0x54 => Some(OpCode::Break),
            0x55 => Some(OpCode::Continue),
            0x60 => Some(OpCode::Call),
            0x61 => Some(OpCode::Return),
            0x62 => Some(OpCode::DefineFunc),
            0x63 => Some(OpCode::LoadFunc),
            0x5E => Some(OpCode::CallClosure),
            0x64 => Some(OpCode::MakeArray),
            0x65 => Some(OpCode::ArrayGet),
            0x66 => Some(OpCode::ArraySet),
            0x67 => Some(OpCode::ArrayLen),
            0x68 => Some(OpCode::ArrayPush),
            0x69 => Some(OpCode::MakeMap),
            0x6A => Some(OpCode::MapGet),
            0x6B => Some(OpCode::MapSet),
            0x6C => Some(OpCode::MapHas),
            0x6D => Some(OpCode::MapRemove),
            0x6E => Some(OpCode::MapKeys),
            0x6F => Some(OpCode::MapValues),
            0xA0 => Some(OpCode::MakeClosure),
            0xA1 => Some(OpCode::LoadCapture),
            0xA2 => Some(OpCode::StoreCapture),
            0xA3 => Some(OpCode::MatchBegin),
            0xA4 => Some(OpCode::MatchArm),
            0xA5 => Some(OpCode::MatchEnd),
            0xA6 => Some(OpCode::MatchWildcard),
            0xA7 => Some(OpCode::MatchBind),
            0xA8 => Some(OpCode::Import),
            0xA9 => Some(OpCode::Export),
            0xAA => Some(OpCode::LoadModule),
            0xB0 => Some(OpCode::TryBegin),
            0xB1 => Some(OpCode::TryEnd),
            0xB2 => Some(OpCode::Throw),
            0xB3 => Some(OpCode::Catch),
            0xB4 => Some(OpCode::Finally),
            0x70 => Some(OpCode::Print),
            0x71 => Some(OpCode::PrintLit),
            0x72 => Some(OpCode::Input),
            0x73 => Some(OpCode::Debug),
            0x80 => Some(OpCode::LoadAcc),
            0x81 => Some(OpCode::StoreAcc),
            0x82 => Some(OpCode::IncAcc),
            0x83 => Some(OpCode::DecAcc),
            0x90 => Some(OpCode::Concat),
            0x91 => Some(OpCode::Convert),
            0x92 => Some(OpCode::Interpolate),
            0xFE => Some(OpCode::Nop),
            0xFF => Some(OpCode::Halt),
            _ => None,
        }
    }

    /// Get the number of operand bytes this opcode expects.
    pub fn operand_count(&self) -> (n: usize)
        ensures
            n == self.operand_bytes(),
            n <= 5,
    {
        match self {
            OpCode::Convert
            | OpCode::CallClosure
            | OpCode::MatchBegin => 1,
            OpCode::Const
            | OpCode::LoadVar
            | OpCode::StoreVar
            | OpCode::LoadGlobal
            | OpCode::StoreGlobal
            | OpCode::Jump
            | OpCode::JumpIfFalse
            | OpCode::JumpIfTrue
            | OpCode::Loop
            | OpCode::LoadFunc
            | OpCode::PrintLit
            | OpCode::MakeArray
            | OpCode::MakeMap
            | OpCode::LoadCapture
            | OpCode::StoreCapture
            | OpCode::MatchArm
            | OpCode::MatchBind
            | OpCode::Import
            | OpCode::Export
            | OpCode::TryBegin
            | OpCode::Catch => 2,
            OpCode::DeclareVar
            | OpCode::Call
            | OpCode::Input
            | OpCode::Interpolate
            | OpCode::MakeClosure => 3,
            OpCode::LoadModule => 4,
            OpCode::DefineFunc => 5,
            _ => 0,
        }
    }

    /// The name of this instruction as a text.
    pub open spec fn name_text(self) -> Seq<char> {
        match self {
            OpCode::Const => "Const"@,
            OpCode::Null => "Null"@,
            OpCode::True => "True"@,
            OpCode::False => "False"@,
            OpCode::Pop => "Pop"@,
            OpCode::Dup => "Dup"@,
            OpCode::Swap => "Swap"@,
            OpCode::Rot => "Rot"@,
            OpCode::DeclareVar => "DeclareVar"@,
            OpCode::LoadVar => "LoadVar"@,
            OpCode::StoreVar => "StoreVar"@,
            OpCode::LoadGlobal => "LoadGlobal"@,
            OpCode::StoreGlobal => "StoreGlobal"@,
            OpCode::Add => "Add"@,
            OpCode::Sub => "Sub"@,
            OpCode::Mul => "Mul"@,
            OpCode::Div => "Div"@,
            OpCode::Mod => "Mod"@,
            OpCode::Pow => "Pow"@,
            OpCode::Neg => "Neg"@,
            OpCode::Inc => "Inc"@,
            OpCode::Dec => "Dec"@,
            OpCode::Eq => "Eq"@,
            OpCode::Ne => "Ne"@,
            OpCode::Lt => "Lt"@,
            OpCode::Gt => "Gt"@,
            OpCode::Le => "Le"@,
            OpCode::Ge => "Ge"@,
            OpCode::And => "And"@,
            OpCode::Or => "Or"@,
            OpCode::Not => "Not"@,
            OpCode::Xor => "Xor"@,
            OpCode::Jump => "Jump"@,
            OpCode::JumpIfFalse => "JumpIfFalse"@,
            OpCode::JumpIfTrue => "JumpIfTrue"@,
            OpCode::Loop => "Loop"@,
            OpCode::Break => "Break"@,
            OpCode::Continue => "Continue"@,
            OpCode::Call => "Call"@,
            OpCode::Return => "Return"@,
            OpCode::DefineFunc => "DefineFunc"@,
            OpCode::LoadFunc => "LoadFunc"@,
            OpCode::CallClosure => "CallClosure"@,
            OpCode::MakeArray => "MakeArray"@,
            OpCode::ArrayGet => "ArrayGet"@,
            OpCode::ArraySet => "ArraySet"@,
            OpCode::ArrayLen => "ArrayLen"@,
            OpCode::ArrayPush => "ArrayPush"@,
            OpCode::MakeMap => "MakeMap"@,
            OpCode::MapGet => "MapGet"@,
            OpCode::MapSet => "MapSet"@,
            OpCode::MapHas => "MapHas"@,
            OpCode::MapRemove => "MapRemove"@,
            OpCode::MapKeys => "MapKeys"@,
            OpCode::MapValues => "MapValues"@,
            OpCode::MakeClosure => "MakeClosure"@,
            OpCode::LoadCapture => "LoadCapture"@,
            OpCode::StoreCapture => "StoreCapture"@,
            OpCode::MatchBegin => "MatchBegin"@,
            OpCode::MatchArm => "MatchArm"@,
            OpCode::MatchEnd => "MatchEnd"@,
            OpCode::MatchWildcard => "MatchWildcard"@,
            OpCode::MatchBind => "MatchBind"@,
            OpCode::Import => "Import"@,
            OpCode::Export => "Export"@,
            OpCode::LoadModule => "LoadModule"@,
            OpCode::TryBegin => "TryBegin"@,
            OpCode::TryEnd => "TryEnd"@,
            OpCode::Throw => "Throw"@,
            OpCode::Catch => "Catch"@,
            OpCode::Finally => "Finally"@,
            OpCode::Print => "Print"@,
            OpCode::PrintLit => "PrintLit"@,
            OpCode::Input => "Input"@,
            OpCode::Debug => "Debug"@,
            OpCode::LoadAcc => "LoadAcc"@,
            OpCode::StoreAcc => "StoreAcc"@,
            OpCode::IncAcc => "IncAcc"@,
            OpCode::DecAcc => "DecAcc"@,
            OpCode::Concat => "Concat"@,
            OpCode::Convert => "Convert"@,
            OpCode::Interpolate => "Interpolate"@,
            OpCode::Nop => "Nop"@,
            OpCode::Halt => "Halt"@,
        }
    }

    /// The name of this instruction.
    pub fn name(&self) -> (s: &'static str)
        ensures
            s@ == self.name_text(),
    {
        match self {
            OpCode::Const => "Const",
            OpCode::Null => "Null",
            OpCode::True => "True",
            OpCode::False => "False",
            OpCode::Pop => "Pop",
            OpCode::Dup => "Dup",
            OpCode::Swap => "Swap",
            OpCode::Rot => "Rot",
            OpCode::DeclareVar => "DeclareVar",
            OpCode::LoadVar => "LoadVar",
            OpCode::StoreVar => "StoreVar",
            OpCode::LoadGlobal => "LoadGlobal",
            OpCode::StoreGlobal => "StoreGlobal",
            OpCode::Add => "Add",
            OpCode::Sub => "Sub",
            OpCode::Mul => "Mul",
            OpCode::Div => "Div",
            OpCode::Mod => "Mod",
            OpCode::Pow => "Pow",
            OpCode::Neg => "Neg",
            OpCode::Inc => "Inc",
            OpCode::Dec => "Dec",
            OpCode::Eq => "Eq",
            OpCode::Ne => "Ne",
            OpCode::Lt => "Lt",
            OpCode::Gt => "Gt",
            OpCode::Le => "Le",
            OpCode::Ge => "Ge",
            OpCode::And => "And",
            OpCode::Or => "Or",
            OpCode::Not => "Not",
            OpCode::Xor => "Xor",
            OpCode::Jump => "Jump",
            OpCode::JumpIfFalse => "JumpIfFalse",
            OpCode::JumpIfTrue => "JumpIfTrue",
            OpCode::Loop => "Loop",
            OpCode::Break => "Break",
            OpCode::Continue => "Continue",
            OpCode::Call => "Call",
            OpCode::Return => "Return",
            OpCode::DefineFunc => "DefineFunc",
            OpCode::LoadFunc => "LoadFunc",
            OpCode::CallClosure => "CallClosure",
            OpCode::MakeArray => "MakeArray",
            OpCode::ArrayGet => "ArrayGet",
            OpCode::ArraySet => "ArraySet",
            OpCode::ArrayLen => "ArrayLen",
            OpCode::ArrayPush => "ArrayPush",
            OpCode::MakeMap => "MakeMap",
            OpCode::MapGet => "MapGet",
            OpCode::MapSet => "MapSet",
            OpCode::MapHas => "MapHas",
            OpCode::MapRemove => "MapRemove",
            OpCode::MapKeys => "MapKeys",
            OpCode::MapValues => "MapValues",
            OpCode::MakeClosure => "MakeClosure",
            OpCode::LoadCapture => "LoadCapture",
            OpCode::StoreCapture => "StoreCapture",
            OpCode::MatchBegin => "MatchBegin",
            OpCode::MatchArm => "MatchArm",
            OpCode::MatchEnd => "MatchEnd",
            OpCode::MatchWildcard => "MatchWildcard",
            OpCode::MatchBind => "MatchBind",
            OpCode::Import => "Import",
            OpCode::Export => "Export",
            OpCode::LoadModule => "LoadModule",
            OpCode::TryBegin => "TryBegin",
            OpCode::TryEnd => "TryEnd",
            OpCode::Throw => "Throw",
            OpCode::Catch => "Catch",
            OpCode::Finally => "Finally",
            OpCode::Print => "Print",
            OpCode::PrintLit => "PrintLit",
            OpCode::Input => "Input",
            OpCode::Debug => "Debug",
            OpCode::LoadAcc => "LoadAcc",
            OpCode::StoreAcc => "StoreAcc",
            OpCode::IncAcc => "IncAcc",
            OpCode::DecAcc => "DecAcc",
            OpCode::Concat => "Concat",
            OpCode::Convert => "Convert",
            OpCode::Interpolate => "Interpolate",
            OpCode::Nop => "Nop",
            OpCode::Halt => "Halt",
        }
    }
}

/// The type tags of values. The tag bytes are part of the bytecode format.
#[derive(Clone, Copy, Debug, PartialEq, Eq, Structural)]
pub enum ValueType {
    Integer,
    Real,
    String,
    Boolean,
    Rune,
    Array,
    Mapping,
    Null,
    Function,
    Closure,
    Module,
}

impl ValueType {
    /// The stable tag byte of this type.
    pub open spec fn tag(self) -> u8 {
        match self {
            ValueType::Integer => 0,
            ValueType::Real => 1,
            ValueType::String => 2,
            ValueType::Boolean => 3,
            ValueType::Rune => 4,
            ValueType::Array => 5,
            ValueType::Mapping => 6,
            ValueType::Null => 7,
            ValueType::Function => 8,
            ValueType::Closure => 9,
            ValueType::Module => 10,
        }
    }

    /// The type that a tag byte stands for, if it stands for one.
    pub open spec fn of_tag(tag: u8) -> Option<ValueType> {
        match tag {
            0 => Some(ValueType::Integer),
            1 => Some(ValueType::Real),
            2 => Some(ValueType::String),
            3 => Some(ValueType::Boolean),
            4 => Some(ValueType::Rune),
            5 => Some(ValueType::Array),
            6 => Some(ValueType::Mapping),
            7 => Some(ValueType::Null),
            8 => Some(ValueType::Function),
            9 => Some(ValueType::Closure),
            10 => Some(ValueType::Module),
            _ => None,
        }
    }

    /// The glyph that names this type in source text.
    pub open spec fn glyph_text(self) -> Seq<char> {
        match self {
            ValueType::Integer => "⟁"@,
            ValueType::Real => "⧆"@,
            ValueType::String => "⌘"@,
            ValueType::Boolean => "☍"@,
            ValueType::Rune => "ᚱ"@,
            ValueType::Array => "⌬"@,
            ValueType::Mapping => "⌖"@,
            ValueType::Null => "∅"@,
            ValueType::Function => "λ"@,
            ValueType::Closure => "λ⊃"@,
            ValueType::Module => "📦"@,
        }
    }

    pub fn to_byte(self) -> (b: u8)
        ensures
            b == self.tag(),
            b <= 10,
            ValueType::of_tag(b) == Some(self),
    {
        match self {
            ValueType::Integer => 0,
            ValueType::Real => 1,
            ValueType::String => 2,
            ValueType::Boolean => 3,
            ValueType::Rune => 4,
            ValueType::Array => 5,
            ValueType::Mapping => 6,
            ValueType::Null => 7,
            ValueType::Function => 8,
            ValueType::Closure => 9,
            ValueType::Module => 10,
        }
    }

    /// Reads a tag byte, refusing every byte that is no tag.
    pub fn from_byte(tag: u8) -> (r: Option<ValueType>)
        ensures
            r == ValueType::of_tag(tag),
            r is Some <==> tag <= 10,
            r matches Some(t) ==> t.tag() == tag,
    {
        match tag {
            0 => Some(ValueType::Integer),
            1 => Some(ValueType::Real),
            2 => Some(ValueType::String),
            3 => Some(ValueType::Boolean),
            4 => Some(ValueType::Rune),
            5 => Some(ValueType::Array),
            6 => Some(ValueType::Mapping),
            7 => Some(ValueType::Null),
            8 => Some(ValueType::Function),
            9 => Some(ValueType::Closure),
            10 => Some(ValueType::Module),
            _ => None,
        }
    }

    /// The glyph that names this type, as shown in messages.
    pub fn glyph(&self) -> (s: String)
        ensures
            s@ == self.glyph_text(),
    {
        match self {
            ValueType::Integer => String::from_str("⟁"),
            ValueType::Real => String::from_str("⧆"),
            ValueType::String => String::from_str("⌘"),
            ValueType::Boolean => String::from_str("☍"),
            ValueType::Rune => String::from_str("ᚱ"),
            ValueType::Array => String::from_str("⌬"),
            ValueType::Mapping => String::from_str("⌖"),
            ValueType::Null => String::from_str("∅"),
            ValueType::Function => String::from_str("λ"),
            ValueType::Closure => String::from_str("λ⊃"),
            ValueType::Module => String::from_str("📦"),
        }
    }
}

impl ValueView {
    /// The type tag of a value.
    pub open spec fn value_type(self) -> ValueType {
        match self {
            ValueView::Integer(_) => ValueType::Integer,
            ValueView::Real(_) => ValueType::Real,
            ValueView::String(_) => ValueType::String,
            ValueView::Boolean(_) => ValueType::Boolean,
            ValueView::Rune(_) => ValueType::Rune,
            ValueView::Array(_) => ValueType::Array,
            ValueView::Mapping(_) => ValueType::Mapping,
            ValueView::Null => ValueType::Null,
            ValueView::Function(_) => ValueType::Function,
            ValueView::Closure(_, _) => ValueType::Closure,
            ValueView::Module(_) => ValueType::Module,
        }
    }

    /// The truthiness rule.
    pub open spec fn truthy(self) -> bool {
        match self {
            ValueView::Null => false,
            ValueView::Boolean(b) => b,
            ValueView::Integer(i) => i != 0,
            ValueView::Real(r) => !r.is_zero(),
            ValueView::String(s) => s.len() != 0,
            ValueView::Array(a) => a.len() != 0,
            ValueView::Mapping(m) => m.len() != 0,
            ValueView::Rune(c) => c != '\0',
            ValueView::Function(_) => true,
            ValueView::Closure(_, _) => true,
            ValueView::Module(_) => true,
        }
    }

    /// Whether a value may serve as a map key.
    pub open spec fn hashable(self) -> bool {
        self is Integer || self is String || self is Boolean || self is Rune || self is Null
    }

    /// The display form of a value that is no real number.
    pub open spec fn display(self) -> Seq<char> {
        match self {
            ValueView::Integer(i) => decimal_of(i as int),
            ValueView::Real(_) => Seq::empty(),
            ValueView::String(s) => s,
            ValueView::Boolean(b) => if b {
                "◉"@
            } else {
                "◎"@
            },
            ValueView::Rune(c) => seq![c],
            ValueView::Null => "∅"@,
            ValueView::Array(a) => "⌬["@ + decimal_of(a.len() as int) + "]"@,
            ValueView::Mapping(m) => "⌖{"@ + decimal_of(m.len() as int) + "}"@,
            ValueView::Function(i) => "λ#"@ + decimal_of(i as int),
            ValueView::Closure(i, _) => "λ⊃#"@ + decimal_of(i as int),
            ValueView::Module(i) => "📦#"@ + decimal_of(i as int),
        }
    }

    /// Structural equality, with reals compared as IEEE numbers: values of
    /// different types are never equal.
    pub open spec fn same(self, other: ValueView) -> bool
        decreases self,
    {
        match (self, other) {
            (ValueView::Integer(x), ValueView::Integer(y)) => x == y,
            (ValueView::Real(x), ValueView::Real(y)) => x.ieee_eq(y),
            (ValueView::String(x), ValueView::String(y)) => x == y,
            (ValueView::Boolean(x), ValueView::Boolean(y)) => x == y,
            (ValueView::Rune(x), ValueView::Rune(y)) => x == y,
            (ValueView::Array(x), ValueView::Array(y)) => same_all(x, y),
            (ValueView::Mapping(x), ValueView::Mapping(y)) => same_entries(x, y),
            (ValueView::Null, ValueView::Null) => true,
            (ValueView::Function(x), ValueView::Function(y)) => x == y,
            (ValueView::Closure(f, x), ValueView::Closure(g, y)) => f == g && same_all(x, y),
            (ValueView::Module(x), ValueView::Module(y)) => x == y,
            _ => false,
        }
    }
}

/// Two sequences of values of one length whose items are pairwise the same.
pub open spec fn same_all(x: Seq<ValueView>, y: Seq<ValueView>) -> bool
    decreases x,
{
    x.len() == y.len() && forall|i: int| 0 <= i < x.len() ==> (#[trigger] x[i]).same(y[i])
}

/// Two sequences of entries of one length whose keys and values are pairwise
/// the same.
pub open spec fn same_entries(
    x: Seq<(ValueView, ValueView)>,
    y: Seq<(ValueView, ValueView)>,
) -> bool
    decreases x,
{
    x.len() == y.len() && forall|i: int|
        0 <= i < x.len() ==> (#[trigger] x[i]).0.same(y[i].0) && x[i].1.same(y[i].1)
}

/// What a conversion or a display needs from the host's floating-point unit,
/// or its result where none is needed.
pub enum Answer<T> {
    /// The result.
    Ready(T),
    /// The host must first compute this.
    Ask(RealRequest),
}

impl Value {
    /// Get the type of this value.
    pub fn value_type(&self) -> (t: ValueType)
        ensures
            t == self@.value_type(),
    {
        match self {
            Value::Integer(_) => ValueType::Integer,
            Value::Real(_) => ValueType::Real,
            Value::String(_) => ValueType::String,
            Value::Boolean(_) => ValueType::Boolean,
            Value::Rune(_) => ValueType::Rune,
            Value::Array(_) => ValueType::Array,
            Value::Mapping(_) => ValueType::Mapping,
            Value::Null => ValueType::Null,
            Value::Function(_) => ValueType::Function,
            Value::ClosureVal(_) => ValueType::Closure,
            Value::Module(_) => ValueType::Module,
        }
    }

    /// Check if this value is truthy.
    pub fn is_truthy(&self) -> (b: bool)
        ensures
            b == self@.truthy(),
    {
        match self {
            Value::Null => false,
            Value::Boolean(b) => *b,
            Value::Integer(i) => *i != 0,
            Value::Real(r) => !r.zero(),
            Value::String(s) => !s.as_str().is_empty(),
            Value::Array(a) => a.len() != 0,
            Value::Mapping(m) => m.len() != 0,
            Value::Rune(c) => *c != '\0',
            Value::Function(_) => true,
            Value::ClosureVal(_) => true,
            Value::Module(_) => true,
        }
    }

    /// Check if value can be used as map key.
    pub fn is_hashable(&self) -> (b: bool)
        ensures
            b == self@.hashable(),
    {
        match self {
            Value::Integer(_) | Value::String(_) | Value::Boolean(_) | Value::Rune(_)
            | Value::Null => true,
            _ => false,
        }
    }

    /// Convert to integer if possible: an integer is itself, a boolean is 0
    /// or 1, a string is read as a decimal integer, and a real is handed to
    /// the host for truncation. Nothing else converts.
    pub fn to_integer(&self) -> (r: Answer<Option<i64>>)
        ensures
            match self@ {
                ValueView::Integer(i) => r == Answer::Ready(Some(i)),
                ValueView::Real(x) => r == Answer::<Option<i64>>::Ask(RealRequest::ToInteger(x)),
                ValueView::Boolean(b) => r == Answer::Ready(
                    Some(
                        if b {
                            1i64
                        } else {
                            0i64
                        },
                    ),
                ),
                ValueView::String(s) => r == Answer::Ready(parsed_integer(s)),
                _ => r == Answer::Ready(None::<i64>),
            },
    {
        match self {
            Value::Integer(i) => Answer::Ready(Some(*i)),
            Value::Real(x) => Answer::Ask(RealRequest::ToInteger(*x)),
            Value::Boolean(b) => Answer::Ready(
                Some(
                    if *b {
                        1
                    } else {
                        0
                    },
                ),
            ),
            Value::String(s) => Answer::Ready(parse_integer(s.as_str())),
            _ => Answer::Ready(None),
        }
    }

    /// Convert to real if possible: a real is itself, a boolean is 0.0 or
    /// 1.0, and an integer or a string is handed to the host. Nothing else
    /// converts.
    pub fn to_real(&self) -> (r: Answer<Option<Real>>)
        ensures
            match self@ {
                ValueView::Integer(i) => r == Answer::<Option<Real>>::Ask(
                    RealRequest::FromInteger(i),
                ),
                ValueView::Real(x) => r == Answer::Ready(Some(x)),
                ValueView::Boolean(b) => r == Answer::Ready(
                    Some(
                        Real {
                            bits: if b {
                                ONE_BITS
                            } else {
                                0
                            },
                        },
                    ),
                ),
                ValueView::String(s) => r matches Answer::Ask(RealRequest::Parse(t)) && t@ == s,
                _ => r == Answer::Ready(None::<Real>),
            },
    {
        match self {
            Value::Integer(i) => Answer::Ask(RealRequest::FromInteger(*i)),
            Value::Real(x) => Answer::Ready(Some(*x)),
            Value::Boolean(b) => Answer::Ready(
                Some(
                    Real {
                        bits: if *b {
                            ONE_BITS
                        } else {
                            0
                        },
                    },
                ),
            ),
            Value::String(s) => Answer::Ask(RealRequest::Parse(s.clone())),
            _ => Answer::Ready(None),
        }
    }

    /// The display form of this value. That of a real is asked of the host.
    pub fn to_string_value(&self) -> (r: Answer<String>)
        ensures
            match self@ {
                ValueView::Real(x) => r == Answer::<String>::Ask(RealRequest::ToText(x)),
                _ => r matches Answer::Ready(s) && s@ == self@.display(),
            },
    {
        match self {
            Value::Integer(i) => Answer::Ready(integer_to_string(*i)),
            Value::Real(x) => Answer::Ask(RealRequest::ToText(*x)),
            Value::String(s) => Answer::Ready(s.clone()),
            Value::Boolean(b) => if *b {
                Answer::Ready(String::from_str("◉"))
            } else {
                Answer::Ready(String::from_str("◎"))
            },
            Value::Rune(c) => {
                let mut s = String::new();
                push_char(&mut s, *c);
                proof {
                    assert(s@ =~= seq![*c]);
                }
                Answer::Ready(s)
            },
            Value::Null => Answer::Ready(String::from_str("∅")),
            Value::Array(a) => {
                let n = unsigned_to_string(a.len() as u64);
                let s = concat(concat("⌬[", n.as_str()).as_str(), "]");
                Answer::Ready(s)
            },
            Value::Mapping(m) => {
                let n = unsigned_to_string(m.len() as u64);
                let s = concat(concat("⌖{", n.as_str()).as_str(), "}");
                Answer::Ready(s)
            },
            Value::Function(i) => {
                let n = unsigned_to_string(*i as u64);
                Answer::Ready(concat("λ#", n.as_str()))
            },
            Value::ClosureVal(c) => {
                let n = unsigned_to_string(c.function_index as u64);
                Answer::Ready(concat("λ⊃#", n.as_str()))
            },
            Value::Module(i) => {
                let n = unsigned_to_string(*i as u64);
                Answer::Ready(concat("📦#", n.as_str()))
            },
        }
    }

    /// Structural equality of two values, as the comparison instructions and
    /// the map look-ups use it.
    pub fn equals(&self, other: &Value) -> (b: bool)
        ensures
            b == self@.same(other@),
        decreases self,
    {
        match (self, other) {
            (Value::Integer(x), Value::Integer(y)) => *x == *y,
            (Value::Real(x), Value::Real(y)) => x.equals(y),
            (Value::String(x), Value::String(y)) => str_eq(x.as_str(), y.as_str()),
            (Value::Boolean(x), Value::Boolean(y)) => *x == *y,
            (Value::Rune(x), Value::Rune(y)) => *x == *y,
            (Value::Array(x), Value::Array(y)) => values_equal(x, y),
            (Value::Mapping(x), Value::Mapping(y)) => entries_equal(x, y),
            (Value::Null, Value::Null) => true,
            (Value::Function(x), Value::Function(y)) => *x == *y,
            (Value::ClosureVal(x), Value::ClosureVal(y)) => x.function_index == y.function_index
                && values_equal(&x.captures, &y.captures),
            (Value::Module(x), Value::Module(y)) => *x == *y,
            _ => false,
        }
    }
}

/// Whether two vectors of values are pairwise the same.
pub fn values_equal(x: &Vec<Value>, y: &Vec<Value>) -> (b: bool)
    ensures
        b == same_all(views_of(x@), views_of(y@)),
    decreases x,
{
    if x.len() != y.len() {
        return false;
    }
    let mut i: usize = 0;
    while i < x.len()
        invariant
            i <= x.len(),
            x.len() == y.len(),
            forall|j: int| 0 <= j < i ==> (#[trigger] views_of(x@)[j]).same(views_of(y@)[j]),
        decreases x.len() - i,
    {
        if !x[i].equals(&y[i]) {
            proof {
                assert(!views_of(x@)[i as int].same(views_of(y@)[i as int]));
            }
            return false;
        }
        i += 1;
    }
    true
}

/// Whether two vectors of entries are pairwise the same.
pub fn entries_equal(x: &Vec<(Value, Value)>, y: &Vec<(Value, Value)>) -> (b: bool)
    ensures
        b == same_entries(entry_views_of(x@), entry_views_of(y@)),
    decreases x,
{
    if x.len() != y.len() {
        return false;
    }
    let mut i: usize = 0;
    while i < x.len()
        invariant
            i <= x.len(),
            x.len() == y.len(),
            forall|j: int|
                0 <= j < i ==> (#[trigger] entry_views_of(x@)[j]).0.same(entry_views_of(y@)[j].0)
                    && entry_views_of(x@)[j].1.same(entry_views_of(y@)[j].1),
        decreases x.len() - i,
    {
        if !x[i].0.equals(&y[i].0) || !x[i].1.equals(&y[i].1) {
            proof {
                let a = entry_views_of(x@)[i as int];
                let b = entry_views_of(y@)[i as int];
                assert(!(a.0.same(b.0) && a.1.same(b.1)));
            }
            return false;
        }
        i += 1;
    }
    true
}


/// The texts of a vector of strings, in order.
pub open spec fn texts_of(strings: Seq<String>) -> Seq<Seq<char>> {
    Seq::new(strings.len(), |i: int| strings[i]@)
}

/// The parameters of a function as texts and types, in order.
pub open spec fn params_of(params: Seq<(String, ValueType)>) -> Seq<(Seq<char>, ValueType)> {
    Seq::new(params.len(), |i: int| (params[i].0@, params[i].1))
}

/// The parameters of a function, copied.
pub fn clone_params(params: &Vec<(String, ValueType)>) -> (r: Vec<(String, ValueType)>)
    ensures
        r@.len() == params@.len(),
        forall|i: int|
            0 <= i < r@.len() ==> (#[trigger] r@[i]).0@ == params@[i].0@ && r@[i].1
                == params@[i].1,
{
    let mut out: Vec<(String, ValueType)> = Vec::new();
    let mut i: usize = 0;
    while i < params.len()
        invariant
            i <= params.len(),
            out@.len() == i,
            forall|j: int|
                0 <= j < i ==> (#[trigger] out@[j]).0@ == params@[j].0@ && out@[j].1
                    == params@[j].1,
        decreases params.len() - i,
    {
        out.push((params[i].0.clone(), params[i].1));
        i += 1;
    }
    out
}

/// Function information stored in the chunk.
#[derive(Debug, Clone)]
pub struct FunctionInfo {
    /// Name of the function.
    pub name: String,
    /// Number of parameters.
    pub arity: u8,
    /// Parameter names and types.
    pub params: Vec<(String, ValueType)>,
    /// Start offset in bytecode.
    pub start: usize,
    /// Length of function body.
    pub length: usize,
    /// Names of captured variables (for closures).
    pub capture_names: Vec<String>,
}

/// The mathematical content of a [`FunctionInfo`].
pub struct FunctionInfoView {
    pub name: Seq<char>,
    pub arity: u8,
    pub params: Seq<(Seq<char>, ValueType)>,
    pub start: usize,
    pub length: usize,
    pub capture_names: Seq<Seq<char>>,
}

impl View for FunctionInfo {
    type V = FunctionInfoView;

    open spec fn view(&self) -> FunctionInfoView {
        FunctionInfoView {
            name: self.name@,
            arity: self.arity,
            params: params_of(self.params@),
            start: self.start,
            length: self.length,
            capture_names: texts_of(self.capture_names@),
        }
    }
}

impl FunctionInfo {
    pub fn new(
        name: String,
        arity: u8,
        params: Vec<(String, ValueType)>,
        start: usize,
        length: usize,
    ) -> (r: Self)
        ensures
            r.name == name,
            r.arity == arity,
            r.params == params,
            r.start == start,
            r.length == length,
            r.capture_names@.len() == 0,
    {
        Self { name, arity, params, start, length, capture_names: Vec::new() }
    }

    /// Check if this function requires closure (has captures).
    pub fn is_closure(&self) -> (b: bool)
        ensures
            b == (self.capture_names@.len() != 0),
    {
        self.capture_names.len() != 0
    }
}

/// The views of the functions of a chunk, in order.
pub open spec fn function_views_of(functions: Seq<FunctionInfo>) -> Seq<FunctionInfoView> {
    Seq::new(functions.len(), |i: int| functions[i]@)
}

/// A chunk of bytecode: the instructions with their pools and line table.
#[derive(Debug, Clone)]
pub struct Chunk {
    /// The bytecode instructions.
    pub code: Vec<u8>,
    /// Constant pool.
    pub constants: Vec<Value>,
    /// String pool for identifiers and literals.
    pub strings: Vec<String>,
    /// Source line of each byte of `code`.
    pub lines: Vec<usize>,
    /// Name of this chunk.
    pub name: String,
    /// Function table.
    pub functions: Vec<FunctionInfo>,
}

/// The mathematical content of a [`Chunk`].
pub struct ChunkView {
    pub code: Seq<u8>,
    pub constants: Seq<ValueView>,
    pub strings: Seq<Seq<char>>,
    pub lines: Seq<usize>,
    pub name: Seq<char>,
    pub functions: Seq<FunctionInfoView>,
}

impl View for Chunk {
    type V = ChunkView;

    open spec fn view(&self) -> ChunkView {
        ChunkView {
            code: self.code@,
            constants: views_of(self.constants@),
            strings: texts_of(self.strings@),
            lines: self.lines@,
            name: self.name@,
            functions: function_views_of(self.functions@),
        }
    }
}

/// The low byte of a 16-bit number.
pub open spec fn low_byte(value: int) -> u8 {
    (value % 256) as u8
}

/// The second byte of a number, counted from the low end.
pub open spec fn high_byte(value: int) -> u8 {
    ((value / 256) % 256) as u8
}

/// The 16-bit number that two bytes encode, low byte first.
pub open spec fn u16_of(low: u8, high: u8) -> u16 {
    (high as int * 256 + low as int) as u16
}

/// `p` is the first position of the text `s` in `strings`.
pub open spec fn first_position(strings: Seq<String>, s: Seq<char>, p: int) -> bool {
    &&& 0 <= p < strings.len()
    &&& strings[p]@ == s
    &&& forall|j: int| 0 <= j < p ==> (#[trigger] strings[j])@ != s
}

/// The text `s` does not occur in `strings`.
pub open spec fn absent(strings: Seq<String>, s: Seq<char>) -> bool {
    forall|j: int| 0 <= j < strings.len() ==> (#[trigger] strings[j])@ != s
}

impl Chunk {
    /// Every byte of code has its line: the invariant that the writers keep.
    pub open spec fn well_formed(&self) -> bool {
        self.code@.len() == self.lines@.len()
    }

    pub fn new(name: &str) -> (r: Self)
        ensures
            r.name@ == name@,
            r.code@.len() == 0,
            r.constants@.len() == 0,
            r.strings@.len() == 0,
            r.lines@.len() == 0,
            r.functions@.len() == 0,
            r.well_formed(),
    {
        Self {
            code: Vec::new(),
            constants: Vec::new(),
            strings: Vec::new(),
            lines: Vec::new(),
            name: String::from_str(name),
            functions: Vec::new(),
        }
    }

    /// Write a single byte.
    pub fn write(&mut self, byte: u8, line: usize)
        ensures
            final(self).code@ == old(self).code@.push(byte),
            final(self).lines@ == old(self).lines@.push(line),
            final(self).constants == old(self).constants,
            final(self).strings == old(self).strings,
            final(self).name == old(self).name,
            final(self).functions == old(self).functions,
            old(self).well_formed() ==> final(self).well_formed(),
    {
        self.code.push(byte);
        self.lines.push(line);
    }

    /// Write an opcode.
    pub fn write_op(&mut self, op: OpCode, line: usize)
        ensures
            final(self).code@ == old(self).code@.push(op.byte()),
            final(self).lines@ == old(self).lines@.push(line),
            final(self).constants == old(self).constants,
            final(self).strings == old(self).strings,
            final(self).name == old(self).name,
            final(self).functions == old(self).functions,
            old(self).well_formed() ==> final(self).well_formed(),
    {
        self.write(op.to_byte(), line);
    }

    /// Write a 16-bit value (little-endian).
    pub fn write_u16(&mut self, value: u16, line: usize)
        ensures
            final(self).code@ == old(self).code@.push(low_byte(value as int)).push(
                high_byte(value as int),
            ),
            final(self).lines@ == old(self).lines@.push(line).push(line),
            final(self).constants == old(self).constants,
            final(self).strings == old(self).strings,
            final(self).name == old(self).name,
            final(self).functions == old(self).functions,
            old(self).well_formed() ==> final(self).well_formed(),
    {
        self.write((value % 256) as u8, line);
        self.write((value / 256) as u8, line);
    }

    /// Add a constant and return its index, reduced to 16 bits.
    pub fn add_constant(&mut self, value: Value) -> (index: u16)
        ensures
            final(self).constants@ == old(self).constants@.push(value),
            index == old(self).constants@.len() % 65536,
            final(self).code == old(self).code,
            final(self).lines == old(self).lines,
            final(self).strings == old(self).strings,
            final(self).name == old(self).name,
            final(self).functions == old(self).functions,
    {
        self.constants.push(value);
        ((self.constants.len() - 1) % 65536) as u16
    }

    /// Add a string and return its index, reduced to 16 bits. A string that
    /// the pool already holds is not added again: its first position is
    /// returned.
    pub fn add_string(&mut self, s: &str) -> (index: u16)
        ensures
            final(self).code == old(self).code,
            final(self).lines == old(self).lines,
            final(self).constants == old(self).constants,
            final(self).name == old(self).name,
            final(self).functions == old(self).functions,
            absent(old(self).strings@, s@) ==> {
                &&& final(self).strings@.len() == old(self).strings@.len() + 1
                &&& final(self).strings@.drop_last() == old(self).strings@
                &&& final(self).strings@.last()@ == s@
                &&& index == old(self).strings@.len() % 65536
            },
            !absent(old(self).strings@, s@) ==> {
                &&& final(self).strings == old(self).strings
                &&& exists|p: int| #[trigger]
                    first_position(old(self).strings@, s@, p) && index == p % 65536
            },
            texts_of(final(self).strings@)[index as int] == s@ || final(self).strings@.len()
                > 65536,
    {
        let mut i: usize = 0;
        while i < self.strings.len()
            invariant
                i <= self.strings.len(),
                *self == *old(self),
                forall|j: int| 0 <= j < i ==> (#[trigger] self.strings@[j])@ != s@,
            decreases self.strings.len() - i,
        {
            if str_eq(self.strings[i].as_str(), s) {
                proof {
                    assert(first_position(old(self).strings@, s@, i as int));
                }
                return (i % 65536) as u16;
            }
            i += 1;
        }
        self.strings.push(String::from_str(s));
        proof {
            assert(final(self).strings@.drop_last() =~= old(self).strings@);
        }
        ((self.strings.len() - 1) % 65536) as u16
    }

    /// Add a function and return its index, reduced to 16 bits.
    pub fn add_function(&mut self, func: FunctionInfo) -> (index: u16)
        ensures
            final(self).functions@ == old(self).functions@.push(func),
            index == old(self).functions@.len() % 65536,
            final(self).code == old(self).code,
            final(self).lines == old(self).lines,
            final(self).constants == old(self).constants,
            final(self).strings == old(self).strings,
            final(self).name == old(self).name,
    {
        self.functions.push(func);
        ((self.functions.len() - 1) % 65536) as u16
    }

    /// Get a function by index.
    pub fn get_function(&self, index: usize) -> (r: Option<&FunctionInfo>)
        ensures
            index < self.functions@.len() ==> r == Some(&self.functions@[index as int]),
            index >= self.functions@.len() ==> r is None,
    {
        if index < self.functions.len() {
            Some(&self.functions[index])
        } else {
            None
        }
    }

    /// Get the current instruction offset.
    pub fn current_offset(&self) -> (n: usize)
        ensures
            n == self.code@.len(),
    {
        self.code.len()
    }

    /// Patch the 16-bit operand at `offset` so that a jump from just behind
    /// it lands at the current end of the code. The distance is reduced to
    /// 16 bits.
    pub fn patch_jump(&mut self, offset: usize)
        requires
            offset + 2 <= old(self).code.len(),
        ensures
            final(self).code@ == old(self).code@.update(
                offset as int,
                low_byte(old(self).code@.len() - offset - 2),
            ).update(offset + 1, high_byte(old(self).code@.len() - offset - 2)),
            final(self).lines == old(self).lines,
            final(self).constants == old(self).constants,
            final(self).strings == old(self).strings,
            final(self).name == old(self).name,
            final(self).functions == old(self).functions,
            old(self).well_formed() ==> final(self).well_formed(),
    {
        let jump: usize = self.code.len() - offset - 2;
        self.code[offset] = (jump % 256) as u8;
        self.code[offset + 1] = ((jump / 256) % 256) as u8;
    }

    /// The 16-bit operand at `offset`, low byte first.
    pub fn read_u16(&self, offset: usize) -> (value: u16)
        requires
            offset + 2 <= self.code.len(),
        ensures
            value == u16_of(self.code@[offset as int], self.code@[offset + 1]),
    {
        let low: u16 = self.code[offset] as u16;
        let high: u16 = self.code[offset + 1] as u16;
        high * 256 + low
    }
}

impl Default for Chunk {
    fn default() -> (r: Self)
        ensures
            r.name@ == "main"@,
            r.code@.len() == 0,
            r.constants@.len() == 0,
            r.strings@.len() == 0,
            r.lines@.len() == 0,
            r.functions@.len() == 0,
            r.well_formed(),
    {
        Self::new("main")
    }
}

} // verus!
