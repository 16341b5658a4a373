use vstd::prelude::*;
use vstd::utf8::{decode_utf8, encode_utf8, is_scalar, valid_utf8};
use crate::bytecode::opcode::{ChunkView, FunctionInfoView, ValueType};
use crate::bytecode::value::ValueView;
use crate::endian::{
    group_byte_lengths, holds, lemma_holds_index, lemma_holds_split, lemma_u16, lemma_u32,
    lemma_u64, u16_at, u16_bytes, u32_at, u32_bytes, u64_at, u64_bytes,
};
use crate::number::Real;

verus! {

broadcast use {vstd::std_specs::vec::group_vec_axioms, group_byte_lengths};

// ---------------------------------------------------------------------------
// The bytecode file format, as functions on bytes.
//
// All numbers are little-endian. A text is its length in bytes as 16 bits,
// then its UTF-8. A list is its count, then its items.
// ---------------------------------------------------------------------------

/// Why a run of bytes is no bytecode file.
pub enum WireError {
    /// The bytes end before the file does.
    Truncated,
    /// The file does not start with the magic number.
    InvalidMagic,
    /// The file's major version is not the runtime's.
    Incompatible { major: u8, minor: u8, patch: u8 },
    /// A text is no UTF-8.
    Corrupted,
    /// A type tag that stands for no type.
    UnknownType(u8),
}

pub const MAGIC_0: u8 = 0x4F;

pub const MAGIC_1: u8 = 0x42;

pub const MAGIC_2: u8 = 0x46;

pub const MAGIC_3: u8 = 0x4B;

pub const VERSION_MAJOR: u8 = 1;

pub const VERSION_MINOR: u8 = 0;

pub const VERSION_PATCH: u8 = 0;

/// A signed number as the unsigned number with the same 64 bits.
pub open spec fn unsigned_of(i: i64) -> int {
    if i < 0 {
        i + 0x1_0000_0000_0000_0000
    } else {
        i as int
    }
}

/// The signed number with the same 64 bits as an unsigned one.
pub open spec fn signed_of(u: int) -> i64 {
    if u >= 0x8000_0000_0000_0000 {
        (u - 0x1_0000_0000_0000_0000) as i64
    } else {
        u as i64
    }
}

pub open spec fn text_bytes(s: Seq<char>) -> Seq<u8> {
    u16_bytes(encode_utf8(s).len() as int % 65536) + encode_utf8(s)
}

pub open spec fn value_bytes(v: ValueView) -> Seq<u8>
    decreases v,
{
    match v {
        ValueView::Null => seq![7u8],
        ValueView::Integer(i) => seq![0u8] + u64_bytes(unsigned_of(i)),
        ValueView::Real(x) => seq![1u8] + u64_bytes(x.bits as int),
        ValueView::Boolean(b) => seq![
            3u8,
            if b {
                1u8
            } else {
                0u8
            },
        ],
        ValueView::String(s) => seq![2u8] + text_bytes(s),
        ValueView::Rune(c) => seq![4u8] + u32_bytes(c as u32 as int),
        ValueView::Array(items) => seq![5u8] + u16_bytes(items.len() as int % 65536) + values_bytes(
            items,
        ),
        ValueView::Mapping(entries) => seq![6u8] + u16_bytes(entries.len() as int % 65536)
            + entries_bytes(entries),
        ValueView::Function(i) => seq![8u8] + u16_bytes(i as int % 65536),
        ValueView::Closure(f, captures) => seq![9u8] + u16_bytes(f as int % 65536) + u16_bytes(captures.len() as int % 65536) + values_bytes(captures),
        ValueView::Module(i) => seq![10u8] + u16_bytes(i as int % 65536),
    }
}

pub open spec fn values_bytes(items: Seq<ValueView>) -> Seq<u8>
    decreases items,
{
    if items.len() == 0 {
        Seq::empty()
    } else {
        value_bytes(items[0]) + values_bytes(items.drop_first())
    }
}

pub open spec fn entries_bytes(entries: Seq<(ValueView, ValueView)>) -> Seq<u8>
    decreases entries,
{
    if entries.len() == 0 {
        Seq::empty()
    } else {
        value_bytes(entries[0].0) + value_bytes(entries[0].1) + entries_bytes(
            entries.drop_first(),
        )
    }
}

pub open spec fn texts_bytes(texts: Seq<Seq<char>>) -> Seq<u8>
    decreases texts.len(),
{
    if texts.len() == 0 {
        Seq::empty()
    } else {
        text_bytes(texts[0]) + texts_bytes(texts.drop_first())
    }
}

pub open spec fn lines_bytes(lines: Seq<usize>) -> Seq<u8>
    decreases lines.len(),
{
    if lines.len() == 0 {
        Seq::empty()
    } else {
        u32_bytes(lines[0] as int % 0x1_0000_0000) + lines_bytes(lines.drop_first())
    }
}

pub open spec fn params_bytes(params: Seq<(Seq<char>, ValueType)>) -> Seq<u8>
    decreases params.len(),
{
    if params.len() == 0 {
        Seq::empty()
    } else {
        text_bytes(params[0].0) + seq![params[0].1.tag()] + params_bytes(params.drop_first())
    }
}

pub open spec fn function_bytes(f: FunctionInfoView) -> Seq<u8> {
    text_bytes(f.name) + seq![f.arity] + u16_bytes(f.params.len() as int % 65536) + params_bytes(
        f.params,
    ) + u32_bytes(f.start as int % 0x1_0000_0000) + u32_bytes(f.length as int % 0x1_0000_0000)
}

pub open spec fn functions_bytes(functions: Seq<FunctionInfoView>) -> Seq<u8>
    decreases functions.len(),
{
    if functions.len() == 0 {
        Seq::empty()
    } else {
        function_bytes(functions[0]) + functions_bytes(functions.drop_first())
    }
}

pub open spec fn header_bytes() -> Seq<u8> {
    seq![MAGIC_0, MAGIC_1, MAGIC_2, MAGIC_3, VERSION_MAJOR, VERSION_MINOR, VERSION_PATCH, 0u8]
}

/// The bytes of the file that holds a chunk.
pub open spec fn chunk_bytes(c: ChunkView) -> Seq<u8> {
    header_bytes() + text_bytes(c.name) + u32_bytes(c.code.len() as int % 0x1_0000_0000) + c.code + pools_bytes(c)
}

// ---------------------------------------------------------------------------
// Reading
// ---------------------------------------------------------------------------

/// The text at `pos`, with the position behind it.
pub open spec fn text_at(b: Seq<u8>, pos: int) -> Result<(Seq<char>, int), WireError> {
    if pos < 0 || pos + 2 > b.len() {
        Err(WireError::Truncated)
    } else {
        let len = u16_at(b, pos);
        if pos + 2 + len > b.len() {
            Err(WireError::Truncated)
        } else {
            let raw = b.subrange(pos + 2, pos + 2 + len);
            if valid_utf8(raw) {
                Ok((decode_utf8(raw), pos + 2 + len))
            } else {
                Err(WireError::Corrupted)
            }
        }
    }
}

/// The character of a code; a code that is no scalar value reads as the
/// null character.
pub open spec fn rune_of(code: int) -> char {
    if 0 <= code <= 0x10FFFF && is_scalar(code as u32) {
        code as u32 as char
    } else {
        '\0'
    }
}

/// The value at `pos`, with the position behind it.
pub open spec fn value_at(b: Seq<u8>, pos: int) -> Result<(ValueView, int), WireError>
    decreases b.len() - pos, 0int,
{
    if pos < 0 || pos >= b.len() {
        Err(WireError::Truncated)
    } else {
        let tag = b[pos];
        let p = pos + 1;
        if tag == 7 {
            Ok((ValueView::Null, p))
        } else if tag == 0 {
            if p + 8 > b.len() {
                Err(WireError::Truncated)
            } else {
                Ok((ValueView::Integer(signed_of(u64_at(b, p))), p + 8))
            }
        } else if tag == 1 {
            if p + 8 > b.len() {
                Err(WireError::Truncated)
            } else {
                Ok((ValueView::Real(Real { bits: u64_at(b, p) as u64 }), p + 8))
            }
        } else if tag == 3 {
            if p + 1 > b.len() {
                Err(WireError::Truncated)
            } else {
                Ok((ValueView::Boolean(b[p] != 0), p + 1))
            }
        } else if tag == 2 {
            match text_at(b, p) {
                Ok((s, next)) => Ok((ValueView::String(s), next)),
                Err(e) => Err(e),
            }
        } else if tag == 4 {
            if p + 4 > b.len() {
                Err(WireError::Truncated)
            } else {
                Ok((ValueView::Rune(rune_of(u32_at(b, p))), p + 4))
            }
        } else if tag == 5 {
            if p + 2 > b.len() {
                Err(WireError::Truncated)
            } else {
                match values_at(b, p + 2, u16_at(b, p) as nat) {
                    Ok((items, next)) => Ok((ValueView::Array(items), next)),
                    Err(e) => Err(e),
                }
            }
        } else if tag == 6 {
            if p + 2 > b.len() {
                Err(WireError::Truncated)
            } else {
                match entries_at(b, p + 2, u16_at(b, p) as nat) {
                    Ok((entries, next)) => Ok((ValueView::Mapping(entries), next)),
                    Err(e) => Err(e),
                }
            }
        } else if tag == 8 {
            if p + 2 > b.len() {
                Err(WireError::Truncated)
            } else {
                Ok((ValueView::Function(u16_at(b, p) as usize), p + 2))
            }
        } else if tag == 9 {
            if p + 4 > b.len() {
                Err(WireError::Truncated)
            } else {
                match values_at(b, p + 4, u16_at(b, p + 2) as nat) {
                    Ok((captures, next)) => Ok(
                        (ValueView::Closure(u16_at(b, p) as usize, captures), next),
                    ),
                    Err(e) => Err(e),
                }
            }
        } else if tag == 10 {
            if p + 2 > b.len() {
                Err(WireError::Truncated)
            } else {
                Ok((ValueView::Module(u16_at(b, p) as usize), p + 2))
            }
        } else {
            Err(WireError::UnknownType(tag))
        }
    }
}

/// The `count` values from `pos` on, with the position behind them.
pub open spec fn values_at(b: Seq<u8>, pos: int, count: nat) -> Result<
    (Seq<ValueView>, int),
    WireError,
>
    decreases b.len() - pos, 1 + count,
{
    if count == 0 {
        Ok((Seq::empty(), pos))
    } else {
        match value_at(b, pos) {
            Err(e) => Err(e),
            Ok((first, next)) => if pos < next <= b.len() {
                match values_at(b, next, (count - 1) as nat) {
                    Ok((rest, end)) => Ok((seq![first] + rest, end)),
                    Err(e) => Err(e),
                }
            } else {
                Err(WireError::Truncated)
            },
        }
    }
}

/// The `count` entries from `pos` on, with the position behind them.
pub open spec fn entries_at(b: Seq<u8>, pos: int, count: nat) -> Result<
    (Seq<(ValueView, ValueView)>, int),
    WireError,
>
    decreases b.len() - pos, 1 + count,
{
    if count == 0 {
        Ok((Seq::empty(), pos))
    } else {
        match value_at(b, pos) {
            Err(e) => Err(e),
            Ok((key, middle)) => if pos < middle <= b.len() {
                match value_at(b, middle) {
                    Err(e) => Err(e),
                    Ok((value, next)) => if middle < next <= b.len() {
                        match entries_at(b, next, (count - 1) as nat) {
                            Ok((rest, end)) => Ok((seq![(key, value)] + rest, end)),
                            Err(e) => Err(e),
                        }
                    } else {
                        Err(WireError::Truncated)
                    },
                }
            } else {
                Err(WireError::Truncated)
            },
        }
    }
}

pub open spec fn texts_at(b: Seq<u8>, pos: int, count: nat) -> Result<
    (Seq<Seq<char>>, int),
    WireError,
>
    decreases count,
{
    if count == 0 {
        Ok((Seq::empty(), pos))
    } else {
        match text_at(b, pos) {
            Err(e) => Err(e),
            Ok((first, next)) => match texts_at(b, next, (count - 1) as nat) {
                Ok((rest, end)) => Ok((seq![first] + rest, end)),
                Err(e) => Err(e),
            },
        }
    }
}

pub open spec fn lines_at(b: Seq<u8>, pos: int, count: nat) -> Result<(Seq<usize>, int), WireError>
    decreases count,
{
    if count == 0 {
        Ok((Seq::empty(), pos))
    } else if pos < 0 || pos + 4 > b.len() {
        Err(WireError::Truncated)
    } else {
        match lines_at(b, pos + 4, (count - 1) as nat) {
            Ok((rest, end)) => Ok((seq![u32_at(b, pos) as usize] + rest, end)),
            Err(e) => Err(e),
        }
    }
}

pub open spec fn params_at(b: Seq<u8>, pos: int, count: nat) -> Result<
    (Seq<(Seq<char>, ValueType)>, int),
    WireError,
>
    decreases count,
{
    if count == 0 {
        Ok((Seq::empty(), pos))
    } else {
        match text_at(b, pos) {
            Err(e) => Err(e),
            Ok((name, next)) => if next + 1 > b.len() {
                Err(WireError::Truncated)
            } else {
                match ValueType::of_tag(b[next]) {
                    None => Err(WireError::UnknownType(b[next])),
                    Some(t) => match params_at(b, next + 1, (count - 1) as nat) {
                        Ok((rest, end)) => Ok((seq![(name, t)] + rest, end)),
                        Err(e) => Err(e),
                    },
                }
            },
        }
    }
}

pub open spec fn function_at(b: Seq<u8>, pos: int) -> Result<(FunctionInfoView, int), WireError> {
    match text_at(b, pos) {
        Err(e) => Err(e),
        Ok((name, p1)) => if p1 + 3 > b.len() {
            Err(WireError::Truncated)
        } else {
            match params_at(b, p1 + 3, u16_at(b, p1 + 1) as nat) {
                Err(e) => Err(e),
                Ok((params, p2)) => if p2 + 8 > b.len() {
                    Err(WireError::Truncated)
                } else {
                    Ok(
                        (
                            FunctionInfoView {
                                name,
                                arity: b[p1],
                                params,
                                start: u32_at(b, p2) as usize,
                                length: u32_at(b, p2 + 4) as usize,
                                capture_names: Seq::empty(),
                            },
                            p2 + 8,
                        ),
                    )
                },
            }
        },
    }
}

pub open spec fn functions_at(b: Seq<u8>, pos: int, count: nat) -> Result<
    (Seq<FunctionInfoView>, int),
    WireError,
>
    decreases count,
{
    if count == 0 {
        Ok((Seq::empty(), pos))
    } else {
        match function_at(b, pos) {
            Err(e) => Err(e),
            Ok((first, next)) => match functions_at(b, next, (count - 1) as nat) {
                Ok((rest, end)) => Ok((seq![first] + rest, end)),
                Err(e) => Err(e),
            },
        }
    }
}

/// The line table and the function table from `pos` on, which complete a
/// chunk.
pub open spec fn tail_of(
    b: Seq<u8>,
    pos: int,
    name: Seq<char>,
    code: Seq<u8>,
    constants: Seq<ValueView>,
    strings: Seq<Seq<char>>,
) -> Result<ChunkView, WireError> {
    if pos < 0 || pos + 4 > b.len() {
        Err(WireError::Truncated)
    } else {
        match lines_at(b, pos + 4, u32_at(b, pos) as nat) {
            Err(e) => Err(e),
            Ok((lines, p5)) => if p5 + 2 > b.len() {
                Err(WireError::Truncated)
            } else {
                match functions_at(b, p5 + 2, u16_at(b, p5) as nat) {
                    Err(e) => Err(e),
                    Ok((functions, _)) => Ok(
                        ChunkView { code, constants, strings, lines, name, functions },
                    ),
                }
            },
        }
    }
}

/// The constant pool and the string pool from `pos` on, and what follows
/// them.
pub open spec fn pools_of(b: Seq<u8>, pos: int, name: Seq<char>, code: Seq<u8>) -> Result<
    ChunkView,
    WireError,
> {
    if pos < 0 || pos + 2 > b.len() {
        Err(WireError::Truncated)
    } else {
        match values_at(b, pos + 2, u16_at(b, pos) as nat) {
            Err(e) => Err(e),
            Ok((constants, p3)) => if p3 + 2 > b.len() {
                Err(WireError::Truncated)
            } else {
                match texts_at(b, p3 + 2, u16_at(b, p3) as nat) {
                    Err(e) => Err(e),
                    Ok((strings, p4)) => tail_of(b, p4, name, code, constants, strings),
                }
            },
        }
    }
}

/// The chunk that a file holds. What follows the chunk in the bytes is not
/// looked at.
pub open spec fn chunk_of(b: Seq<u8>) -> Result<ChunkView, WireError> {
    if b.len() < 4 {
        Err(WireError::Truncated)
    } else if !(b[0] == MAGIC_0 && b[1] == MAGIC_1 && b[2] == MAGIC_2 && b[3] == MAGIC_3) {
        Err(WireError::InvalidMagic)
    } else if b.len() < 8 {
        Err(WireError::Truncated)
    } else if b[4] != VERSION_MAJOR {
        Err(WireError::Incompatible { major: b[4], minor: b[5], patch: b[6] })
    } else {
        match text_at(b, 8) {
            Err(e) => Err(e),
            Ok((name, p1)) => if p1 + 4 > b.len() || p1 + 4 + u32_at(b, p1) > b.len() {
                Err(WireError::Truncated)
            } else {
                let p2 = p1 + 4 + u32_at(b, p1);
                pools_of(b, p2, name, b.subrange(p1 + 4, p2))
            },
        }
    }
}

/// The bytes of the line table and the function table of a chunk.
pub open spec fn tail_bytes(c: ChunkView) -> Seq<u8> {
    u32_bytes(c.lines.len() as int % 0x1_0000_0000) + lines_bytes(c.lines) + u16_bytes(c.functions.len() as int % 65536)
        + functions_bytes(c.functions)
}

/// The bytes of the pools of a chunk and of what follows them.
pub open spec fn pools_bytes(c: ChunkView) -> Seq<u8> {
    u16_bytes(c.constants.len() as int % 65536) + values_bytes(c.constants) + u16_bytes(c.strings.len() as int % 65536) + texts_bytes(c.strings) + tail_bytes(c)
}

// ---------------------------------------------------------------------------
// What can be written is read back
// ---------------------------------------------------------------------------

/// A value whose lengths and indices fit the widths of the format.
pub open spec fn value_fits(v: ValueView) -> bool
    decreases v,
{
    match v {
        ValueView::String(s) => encode_utf8(s).len() < 65536,
        ValueView::Array(items) => items.len() < 65536 && forall|i: int|
            0 <= i < items.len() ==> value_fits(#[trigger] items[i]),
        ValueView::Mapping(entries) => entries.len() < 65536 && forall|i: int|
            0 <= i < entries.len() ==> value_fits((#[trigger] entries[i]).0) && value_fits(
                entries[i].1,
            ),
        ValueView::Function(i) => i < 65536,
        ValueView::Closure(f, captures) => f < 65536 && captures.len() < 65536 && forall|i: int|
            0 <= i < captures.len() ==> value_fits(#[trigger] captures[i]),
        ValueView::Module(i) => i < 65536,
        _ => true,
    }
}

/// A function entry that the format can hold: its lengths fit, and it
/// captures nothing, for the format has no place for captured names.
pub open spec fn function_fits(f: FunctionInfoView) -> bool {
    &&& encode_utf8(f.name).len() < 65536
    &&& f.params.len() < 65536
    &&& forall|i: int|
        0 <= i < f.params.len() ==> encode_utf8((#[trigger] f.params[i]).0).len() < 65536
    &&& f.start < 0x1_0000_0000
    &&& f.length < 0x1_0000_0000
    &&& f.capture_names.len() == 0
}

/// A chunk that the format can hold.
pub open spec fn chunk_fits(c: ChunkView) -> bool {
    &&& encode_utf8(c.name).len() < 65536
    &&& c.code.len() < 0x1_0000_0000
    &&& c.constants.len() < 65536
    &&& forall|i: int| 0 <= i < c.constants.len() ==> value_fits(#[trigger] c.constants[i])
    &&& c.strings.len() < 65536
    &&& forall|i: int|
        0 <= i < c.strings.len() ==> encode_utf8(#[trigger] c.strings[i]).len() < 65536
    &&& c.lines.len() < 0x1_0000_0000
    &&& forall|i: int| 0 <= i < c.lines.len() ==> (#[trigger] c.lines[i]) < 0x1_0000_0000
    &&& c.functions.len() < 65536
    &&& forall|i: int| 0 <= i < c.functions.len() ==> function_fits(#[trigger] c.functions[i])
}

pub proof fn lemma_text(b: Seq<u8>, pos: int, s: Seq<char>)
    requires
        holds(b, pos, text_bytes(s)),
        encode_utf8(s).len() < 65536,
    ensures
        text_at(b, pos) == Ok::<(Seq<char>, int), WireError>((s, pos + text_bytes(s).len())),
        text_bytes(s).len() == 2 + encode_utf8(s).len(),
{
    let raw = encode_utf8(s);
    lemma_holds_split(b, pos, u16_bytes(raw.len() as int % 65536), raw);
    lemma_u16(b, pos, raw.len() as int);
    vstd::utf8::encode_utf8_valid_utf8(s);
    vstd::utf8::encode_utf8_decode_utf8(s);
}

pub proof fn lemma_value_bytes_nonempty(v: ValueView)
    ensures
        value_bytes(v).len() >= 1,
{
}

pub proof fn lemma_value(b: Seq<u8>, pos: int, v: ValueView)
    requires
        holds(b, pos, value_bytes(v)),
        value_fits(v),
    ensures
        value_at(b, pos) == Ok::<(ValueView, int), WireError>((v, pos + value_bytes(v).len())),
    decreases v, 0int,
{
    let enc = value_bytes(v);
    lemma_value_bytes_nonempty(v);
    lemma_holds_index(b, pos, enc, 0);
    let p = pos + 1;
    match v {
        ValueView::Null => {},
        ValueView::Integer(i) => {
            lemma_holds_split(b, pos, seq![0u8], u64_bytes(unsigned_of(i)));
            lemma_u64(b, p, unsigned_of(i));
        },
        ValueView::Real(x) => {
            lemma_holds_split(b, pos, seq![1u8], u64_bytes(x.bits as int));
            lemma_u64(b, p, x.bits as int);
        },
        ValueView::Boolean(flag) => {
            lemma_holds_index(b, pos, enc, 1);
        },
        ValueView::String(s) => {
            lemma_holds_split(b, pos, seq![2u8], text_bytes(s));
            lemma_text(b, p, s);
        },
        ValueView::Rune(c) => {
            lemma_holds_split(b, pos, seq![4u8], u32_bytes(c as u32 as int));
            vstd::utf8::char_is_scalar(c);
            lemma_u32(b, p, c as u32 as int);
        },
        ValueView::Array(items) => {
            let head = seq![5u8] + u16_bytes(items.len() as int % 65536);
            lemma_holds_split(b, pos, head, values_bytes(items));
            lemma_holds_split(b, pos, seq![5u8], u16_bytes(items.len() as int % 65536));
            lemma_u16(b, p, items.len() as int);
            lemma_values(b, p + 2, items);
        },
        ValueView::Mapping(entries) => {
            let head = seq![6u8] + u16_bytes(entries.len() as int % 65536);
            lemma_holds_split(b, pos, head, entries_bytes(entries));
            lemma_holds_split(b, pos, seq![6u8], u16_bytes(entries.len() as int % 65536));
            lemma_u16(b, p, entries.len() as int);
            lemma_entries(b, p + 2, entries);
        },
        ValueView::Function(i) => {
            lemma_holds_split(b, pos, seq![8u8], u16_bytes(i as int % 65536));
            lemma_u16(b, p, i as int);
        },
        ValueView::Closure(f, captures) => {
            let head1 = seq![9u8] + u16_bytes(f as int % 65536);
            let head2 = head1 + u16_bytes(captures.len() as int % 65536);
            lemma_holds_split(b, pos, head2, values_bytes(captures));
            lemma_holds_split(b, pos, head1, u16_bytes(captures.len() as int % 65536));
            lemma_holds_split(b, pos, seq![9u8], u16_bytes(f as int % 65536));
            lemma_u16(b, p, f as int);
            lemma_u16(b, p + 2, captures.len() as int);
            lemma_values(b, p + 4, captures);
        },
        ValueView::Module(i) => {
            lemma_holds_split(b, pos, seq![10u8], u16_bytes(i as int % 65536));
            lemma_u16(b, p, i as int);
        },
    }
}

pub proof fn lemma_values(b: Seq<u8>, pos: int, items: Seq<ValueView>)
    requires
        holds(b, pos, values_bytes(items)),
        forall|i: int| 0 <= i < items.len() ==> value_fits(#[trigger] items[i]),
    ensures
        values_at(b, pos, items.len()) == Ok::<(Seq<ValueView>, int), WireError>(
            (items, pos + values_bytes(items).len()),
        ),
    decreases items, 1int,
{
    if items.len() > 0 {
        let first = items[0];
        let rest = items.drop_first();
        lemma_holds_split(b, pos, value_bytes(first), values_bytes(rest));
        lemma_value_bytes_nonempty(first);
        lemma_value(b, pos, first);
        assert forall|i: int| 0 <= i < rest.len() implies value_fits(#[trigger] rest[i]) by {
            assert(rest[i] == items[i + 1]);
        }
        lemma_values(b, pos + value_bytes(first).len(), rest);
        assert(seq![first] + rest =~= items);
    } else {
        assert(items =~= Seq::empty());
    }
}

pub proof fn lemma_entries(b: Seq<u8>, pos: int, entries: Seq<(ValueView, ValueView)>)
    requires
        holds(b, pos, entries_bytes(entries)),
        forall|i: int|
            0 <= i < entries.len() ==> value_fits((#[trigger] entries[i]).0) && value_fits(
                entries[i].1,
            ),
    ensures
        entries_at(b, pos, entries.len()) == Ok::<(Seq<(ValueView, ValueView)>, int), WireError>(
            (entries, pos + entries_bytes(entries).len()),
        ),
    decreases entries, 1int,
{
    if entries.len() > 0 {
        let first = entries[0];
        let rest = entries.drop_first();
        let pair = value_bytes(first.0) + value_bytes(first.1);
        lemma_holds_split(b, pos, pair, entries_bytes(rest));
        lemma_holds_split(b, pos, value_bytes(first.0), value_bytes(first.1));
        lemma_value_bytes_nonempty(first.0);
        lemma_value_bytes_nonempty(first.1);
        lemma_value(b, pos, first.0);
        lemma_value(b, pos + value_bytes(first.0).len(), first.1);
        assert forall|i: int| 0 <= i < rest.len() implies value_fits((#[trigger] rest[i]).0)
            && value_fits(rest[i].1) by {
            assert(rest[i] == entries[i + 1]);
        }
        lemma_entries(b, pos + pair.len(), rest);
        assert(seq![first] + rest =~= entries);
    } else {
        assert(entries =~= Seq::empty());
    }
}

pub proof fn lemma_texts(b: Seq<u8>, pos: int, texts: Seq<Seq<char>>)
    requires
        holds(b, pos, texts_bytes(texts)),
        forall|i: int| 0 <= i < texts.len() ==> encode_utf8(#[trigger] texts[i]).len() < 65536,
    ensures
        texts_at(b, pos, texts.len()) == Ok::<(Seq<Seq<char>>, int), WireError>(
            (texts, pos + texts_bytes(texts).len()),
        ),
    decreases texts.len(),
{
    if texts.len() > 0 {
        let rest = texts.drop_first();
        lemma_holds_split(b, pos, text_bytes(texts[0]), texts_bytes(rest));
        lemma_text(b, pos, texts[0]);
        assert forall|i: int| 0 <= i < rest.len() implies encode_utf8(#[trigger] rest[i]).len()
            < 65536 by {
            assert(rest[i] == texts[i + 1]);
        }
        lemma_texts(b, pos + text_bytes(texts[0]).len(), rest);
        assert(seq![texts[0]] + rest =~= texts);
    } else {
        assert(texts =~= Seq::empty());
    }
}

pub proof fn lemma_lines(b: Seq<u8>, pos: int, lines: Seq<usize>)
    requires
        holds(b, pos, lines_bytes(lines)),
        forall|i: int| 0 <= i < lines.len() ==> (#[trigger] lines[i]) < 0x1_0000_0000,
    ensures
        lines_at(b, pos, lines.len()) == Ok::<(Seq<usize>, int), WireError>(
            (lines, pos + lines_bytes(lines).len()),
        ),
        lines_bytes(lines).len() == 4 * lines.len(),
    decreases lines.len(),
{
    if lines.len() > 0 {
        let rest = lines.drop_first();
        lemma_holds_split(b, pos, u32_bytes(lines[0] as int % 0x1_0000_0000), lines_bytes(rest));
        lemma_u32(b, pos, lines[0] as int);
        assert forall|i: int| 0 <= i < rest.len() implies (#[trigger] rest[i])
            < 0x1_0000_0000 by {
            assert(rest[i] == lines[i + 1]);
        }
        lemma_lines(b, pos + 4, rest);
        assert(seq![lines[0]] + rest =~= lines);
    } else {
        assert(lines =~= Seq::empty());
    }
}

pub proof fn lemma_params(b: Seq<u8>, pos: int, params: Seq<(Seq<char>, ValueType)>)
    requires
        holds(b, pos, params_bytes(params)),
        forall|i: int|
            0 <= i < params.len() ==> encode_utf8((#[trigger] params[i]).0).len() < 65536,
    ensures
        params_at(b, pos, params.len()) == Ok::<(Seq<(Seq<char>, ValueType)>, int), WireError>(
            (params, pos + params_bytes(params).len()),
        ),
    decreases params.len(),
{
    if params.len() > 0 {
        let first = params[0];
        let rest = params.drop_first();
        let one = text_bytes(first.0) + seq![first.1.tag()];
        lemma_holds_split(b, pos, one, params_bytes(rest));
        lemma_holds_split(b, pos, text_bytes(first.0), seq![first.1.tag()]);
        lemma_text(b, pos, first.0);
        lemma_holds_index(b, pos + text_bytes(first.0).len(), seq![first.1.tag()], 0);
        assert forall|i: int| 0 <= i < rest.len() implies encode_utf8(
            (#[trigger] rest[i]).0,
        ).len() < 65536 by {
            assert(rest[i] == params[i + 1]);
        }
        lemma_params(b, pos + one.len(), rest);
        assert(seq![first] + rest =~= params);
    } else {
        assert(params =~= Seq::empty());
    }
}

pub proof fn lemma_function(b: Seq<u8>, pos: int, f: FunctionInfoView)
    requires
        holds(b, pos, function_bytes(f)),
        function_fits(f),
    ensures
        function_at(b, pos) == Ok::<(FunctionInfoView, int), WireError>(
            (f, pos + function_bytes(f).len()),
        ),
{
    let e1 = text_bytes(f.name);
    let e2 = e1 + seq![f.arity];
    let e3 = e2 + u16_bytes(f.params.len() as int % 65536);
    let e4 = e3 + params_bytes(f.params);
    let e5 = e4 + u32_bytes(f.start as int % 0x1_0000_0000);
    lemma_holds_split(b, pos, e5, u32_bytes(f.length as int % 0x1_0000_0000));
    lemma_holds_split(b, pos, e4, u32_bytes(f.start as int % 0x1_0000_0000));
    lemma_holds_split(b, pos, e3, params_bytes(f.params));
    lemma_holds_split(b, pos, e2, u16_bytes(f.params.len() as int % 65536));
    lemma_holds_split(b, pos, e1, seq![f.arity]);
    lemma_text(b, pos, f.name);
    lemma_holds_index(b, pos + e1.len(), seq![f.arity], 0);
    lemma_u16(b, pos + e2.len(), f.params.len() as int);
    lemma_params(b, pos + e3.len(), f.params);
    lemma_u32(b, pos + e4.len(), f.start as int);
    lemma_u32(b, pos + e5.len(), f.length as int);
    assert(f.capture_names =~= Seq::empty());
}

pub proof fn lemma_functions(b: Seq<u8>, pos: int, functions: Seq<FunctionInfoView>)
    requires
        holds(b, pos, functions_bytes(functions)),
        forall|i: int| 0 <= i < functions.len() ==> function_fits(#[trigger] functions[i]),
    ensures
        functions_at(b, pos, functions.len()) == Ok::<(Seq<FunctionInfoView>, int), WireError>(
            (functions, pos + functions_bytes(functions).len()),
        ),
    decreases functions.len(),
{
    if functions.len() > 0 {
        let rest = functions.drop_first();
        lemma_holds_split(b, pos, function_bytes(functions[0]), functions_bytes(rest));
        lemma_function(b, pos, functions[0]);
        assert forall|i: int| 0 <= i < rest.len() implies function_fits(#[trigger] rest[i]) by {
            assert(rest[i] == functions[i + 1]);
        }
        lemma_functions(b, pos + function_bytes(functions[0]).len(), rest);
        assert(seq![functions[0]] + rest =~= functions);
    } else {
        assert(functions =~= Seq::empty());
    }
}

proof fn lemma_tail(b: Seq<u8>, pos: int, c: ChunkView)
    requires
        chunk_fits(c),
        holds(b, pos, tail_bytes(c)),
    ensures
        tail_of(b, pos, c.name, c.code, c.constants, c.strings) == Ok::<ChunkView, WireError>(c),
{
    let e1 = u32_bytes(c.lines.len() as int % 0x1_0000_0000);
    let e2 = e1 + lines_bytes(c.lines);
    let e3 = e2 + u16_bytes(c.functions.len() as int % 65536);
    lemma_holds_split(b, pos, e3, functions_bytes(c.functions));
    lemma_holds_split(b, pos, e2, u16_bytes(c.functions.len() as int % 65536));
    lemma_holds_split(b, pos, e1, lines_bytes(c.lines));
    lemma_u32(b, pos, c.lines.len() as int);
    lemma_lines(b, pos + 4, c.lines);
    lemma_u16(b, pos + e2.len(), c.functions.len() as int);
    lemma_functions(b, pos + e3.len(), c.functions);
}

proof fn lemma_pools(b: Seq<u8>, pos: int, c: ChunkView)
    requires
        chunk_fits(c),
        holds(b, pos, pools_bytes(c)),
    ensures
        pools_of(b, pos, c.name, c.code) == Ok::<ChunkView, WireError>(c),
{
    let e1 = u16_bytes(c.constants.len() as int % 65536);
    let e2 = e1 + values_bytes(c.constants);
    let e3 = e2 + u16_bytes(c.strings.len() as int % 65536);
    let e4 = e3 + texts_bytes(c.strings);
    lemma_holds_split(b, pos, e4, tail_bytes(c));
    lemma_holds_split(b, pos, e3, texts_bytes(c.strings));
    lemma_holds_split(b, pos, e2, u16_bytes(c.strings.len() as int % 65536));
    lemma_holds_split(b, pos, e1, values_bytes(c.constants));
    lemma_u16(b, pos, c.constants.len() as int);
    lemma_values(b, pos + 2, c.constants);
    lemma_u16(b, pos + e2.len(), c.strings.len() as int);
    lemma_texts(b, pos + e3.len(), c.strings);
    lemma_tail(b, pos + e4.len(), c);
}

#[verifier::rlimit(50)]
proof fn lemma_file(b: Seq<u8>, c: ChunkView)
    requires
        chunk_fits(c),
        holds(b, 0, chunk_bytes(c)),
    ensures
        chunk_of(b) == Ok::<ChunkView, WireError>(c),
{
    let e0 = header_bytes();
    let e1 = e0 + text_bytes(c.name);
    let e2 = e1 + u32_bytes(c.code.len() as int % 0x1_0000_0000);
    let e3 = e2 + c.code;
    lemma_holds_split(b, 0, e3, pools_bytes(c));
    lemma_holds_split(b, 0, e2, c.code);
    lemma_holds_split(b, 0, e1, u32_bytes(c.code.len() as int % 0x1_0000_0000));
    lemma_holds_split(b, 0, e0, text_bytes(c.name));
    lemma_holds_index(b, 0, e0, 0);
    lemma_holds_index(b, 0, e0, 1);
    lemma_holds_index(b, 0, e0, 2);
    lemma_holds_index(b, 0, e0, 3);
    lemma_holds_index(b, 0, e0, 4);
    lemma_text(b, 8, c.name);
    let p1: int = 8 + text_bytes(c.name).len() as int;
    assert(e1.len() == p1);
    lemma_u32(b, p1, c.code.len() as int);
    assert(u32_at(b, p1) == c.code.len());
    let p2: int = p1 + 4 + c.code.len() as int;
    assert(e3.len() == p2);
    assert(b.subrange(p1 + 4, p2) == c.code);
    lemma_pools(b, p2, c);
    assert(text_at(b, 8) == Ok::<(Seq<char>, int), WireError>((c.name, p1)));
}

/// Round trip: the file of a chunk that the format can hold reads back as
/// the same chunk, whatever bytes follow it.
pub proof fn lemma_round_trip(c: ChunkView, rest: Seq<u8>)
    requires
        chunk_fits(c),
    ensures
        chunk_of(chunk_bytes(c) + rest) == Ok::<ChunkView, WireError>(c),
{
    let b = chunk_bytes(c) + rest;
    assert(b.subrange(0, chunk_bytes(c).len() as int) =~= chunk_bytes(c));
    lemma_file(b, c);
}

/// Version gate: a file with the magic number whose major version is not
/// the runtime's is refused, whatever else it holds.
pub proof fn lemma_version_gate(b: Seq<u8>)
    requires
        b.len() >= 8,
        b[0] == MAGIC_0 && b[1] == MAGIC_1 && b[2] == MAGIC_2 && b[3] == MAGIC_3,
        b[4] != VERSION_MAJOR,
    ensures
        chunk_of(b) == Err::<ChunkView, WireError>(
            WireError::Incompatible { major: b[4], minor: b[5], patch: b[6] },
        ),
{
}

} // verus!
