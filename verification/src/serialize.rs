use vstd::prelude::*;
use vstd::string::{StrSliceExecFns, StringExecFns};
use vstd::utf8::{encode_utf8};
use crate::bytecode::opcode::{
    function_views_of, params_of, texts_of, Chunk, FunctionInfo, FunctionInfoView, ValueType,
};
use crate::bytecode::value::{
    entry_views_of, group_value_views, lemma_entry_views_of_push, lemma_views_of_push, views_of,
    Closure, Value, ValueView,
};
use crate::number::Real;
use crate::text::{char_from_u32, concat, decimal_of, string_from_utf8, unsigned_to_string};
use crate::endian::{
    group_byte_lengths, u16_at, u16_bytes, u32_at, u32_bytes, u64_at, u64_bytes,
};
use crate::wire::{
    chunk_bytes, chunk_of, entries_at, entries_bytes, function_at, function_bytes, functions_at,
    functions_bytes, header_bytes, lines_at, lines_bytes, params_at, params_bytes, pools_of,
    pools_bytes, signed_of, tail_bytes, tail_of, text_at, text_bytes, texts_at, texts_bytes,
    unsigned_of, value_at, value_bytes, values_at, values_bytes, WireError, MAGIC_0, MAGIC_1,
    MAGIC_2, MAGIC_3, VERSION_MAJOR, VERSION_MINOR, VERSION_PATCH,
};

verus! {

broadcast use {
    vstd::std_specs::vec::group_vec_axioms,
    group_value_views,
    group_byte_lengths,
};

/// Serialization errors.
#[derive(Debug)]
pub enum SerializeError {
    /// Reading or writing failed; a file that ends too early is reported
    /// here, as a buffer that could not be filled.
    IoError(String),
    /// The file does not start with the magic number.
    InvalidMagic,
    /// The file's major version is not the runtime's.
    IncompatibleVersion { file_version: String, runtime_version: String },
    /// A text of the file is no UTF-8.
    CorruptedData { offset: usize },
    /// A type tag that stands for no type.
    UnknownValueType(u8),
}

/// A version as text: its three numbers with points between them.
pub open spec fn version_text(major: u8, minor: u8, patch: u8) -> Seq<char> {
    decimal_of(major as int) + "."@ + decimal_of(minor as int) + "."@ + decimal_of(patch as int)
}

/// `x` is the error that reports `e`.
pub open spec fn reports(x: SerializeError, e: WireError) -> bool {
    match e {
        WireError::Truncated => x matches SerializeError::IoError(m) && m@
            == "failed to fill whole buffer"@,
        WireError::InvalidMagic => x matches SerializeError::InvalidMagic,
        WireError::Incompatible { major, minor, patch } => x matches SerializeError::IncompatibleVersion {
            file_version,
            runtime_version,
        } && file_version@ == version_text(major, minor, patch) && runtime_version@
            == version_text(VERSION_MAJOR, VERSION_MINOR, VERSION_PATCH),
        WireError::Corrupted => x matches SerializeError::CorruptedData { offset: 0 },
        WireError::UnknownType(tag) => x matches SerializeError::UnknownValueType(t) && t == tag,
    }
}

fn truncated() -> (x: SerializeError)
    ensures
        reports(x, WireError::Truncated),
{
    SerializeError::IoError(String::from_str("failed to fill whole buffer"))
}

fn version_string_of(major: u8, minor: u8, patch: u8) -> (s: String)
    ensures
        s@ == version_text(major, minor, patch),
{
    let a = unsigned_to_string(major as u64);
    let b = unsigned_to_string(minor as u64);
    let c = unsigned_to_string(patch as u64);
    let mut s = concat(a.as_str(), ".");
    s.append(b.as_str());
    s.append(".");
    s.append(c.as_str());
    s
}

/// Bytecode file header.
#[derive(Debug, Clone)]
pub struct BytecodeHeader {
    pub magic: [u8; 4],
    pub version_major: u8,
    pub version_minor: u8,
    pub version_patch: u8,
    pub flags: u8,
}

impl BytecodeHeader {
    /// The header that this runtime writes.
    pub fn new() -> (r: Self)
        ensures
            r.magic@ == seq![MAGIC_0, MAGIC_1, MAGIC_2, MAGIC_3],
            r.version_major == VERSION_MAJOR,
            r.version_minor == VERSION_MINOR,
            r.version_patch == VERSION_PATCH,
            r.flags == 0,
    {
        let r = Self {
            magic: [MAGIC_0, MAGIC_1, MAGIC_2, MAGIC_3],
            version_major: VERSION_MAJOR,
            version_minor: VERSION_MINOR,
            version_patch: VERSION_PATCH,
            flags: 0,
        };
        proof {
            assert(r.magic@ =~= seq![MAGIC_0, MAGIC_1, MAGIC_2, MAGIC_3]);
        }
        r
    }

    pub fn version_string(&self) -> (s: String)
        ensures
            s@ == version_text(self.version_major, self.version_minor, self.version_patch),
    {
        version_string_of(self.version_major, self.version_minor, self.version_patch)
    }

    /// A file is accepted exactly if its major version is the runtime's.
    pub fn is_compatible(&self) -> (b: bool)
        ensures
            b == (self.version_major == VERSION_MAJOR),
    {
        self.version_major == VERSION_MAJOR
    }
}

impl Default for BytecodeHeader {
    fn default() -> (r: Self)
        ensures
            r.magic@ == seq![MAGIC_0, MAGIC_1, MAGIC_2, MAGIC_3],
            r.version_major == VERSION_MAJOR,
            r.version_minor == VERSION_MINOR,
            r.version_patch == VERSION_PATCH,
            r.flags == 0,
    {
        Self::new()
    }
}

// ---------------------------------------------------------------------------
// Lists are written item by item
// ---------------------------------------------------------------------------

pub proof fn lemma_values_bytes_push(items: Seq<ValueView>, last: ValueView)
    ensures
        values_bytes(items.push(last)) == values_bytes(items) + value_bytes(last),
    decreases items.len(),
{
    let pushed = items.push(last);
    assert(pushed[0] == if items.len() == 0 {
        last
    } else {
        items[0]
    });
    assert(values_bytes(pushed) == value_bytes(pushed[0]) + values_bytes(pushed.drop_first()));
    if items.len() == 0 {
        assert(items =~= Seq::<ValueView>::empty());
        assert(pushed.drop_first() =~= Seq::<ValueView>::empty());
        assert(values_bytes(Seq::<ValueView>::empty()) =~= Seq::<u8>::empty());
        assert(values_bytes(pushed) =~= values_bytes(items) + value_bytes(last));
    } else {
        assert(pushed.drop_first() =~= items.drop_first().push(last));
        lemma_values_bytes_push(items.drop_first(), last);
        assert(values_bytes(items) == value_bytes(items[0]) + values_bytes(items.drop_first()));
        assert(values_bytes(pushed) =~= values_bytes(items) + value_bytes(last));
    }
}

pub proof fn lemma_entries_bytes_push(items: Seq<(ValueView, ValueView)>, last: (ValueView, ValueView))
    ensures
        entries_bytes(items.push(last)) == entries_bytes(items) + (value_bytes(last.0) + value_bytes(last.1)),
    decreases items.len(),
{
    let pushed = items.push(last);
    assert(pushed[0] == if items.len() == 0 {
        last
    } else {
        items[0]
    });
    assert(entries_bytes(pushed) == (value_bytes(pushed[0].0) + value_bytes(pushed[0].1)) + entries_bytes(pushed.drop_first()));
    if items.len() == 0 {
        assert(items =~= Seq::<(ValueView, ValueView)>::empty());
        assert(pushed.drop_first() =~= Seq::<(ValueView, ValueView)>::empty());
        assert(entries_bytes(Seq::<(ValueView, ValueView)>::empty()) =~= Seq::<u8>::empty());
        assert(entries_bytes(pushed) =~= entries_bytes(items) + (value_bytes(last.0) + value_bytes(last.1)));
    } else {
        assert(pushed.drop_first() =~= items.drop_first().push(last));
        lemma_entries_bytes_push(items.drop_first(), last);
        assert(entries_bytes(items) == (value_bytes(items[0].0) + value_bytes(items[0].1)) + entries_bytes(items.drop_first()));
        assert(entries_bytes(pushed) =~= entries_bytes(items) + (value_bytes(last.0) + value_bytes(last.1)));
    }
}

pub proof fn lemma_texts_bytes_push(items: Seq<Seq<char>>, last: Seq<char>)
    ensures
        texts_bytes(items.push(last)) == texts_bytes(items) + text_bytes(last),
    decreases items.len(),
{
    let pushed = items.push(last);
    assert(pushed[0] == if items.len() == 0 {
        last
    } else {
        items[0]
    });
    assert(texts_bytes(pushed) == text_bytes(pushed[0]) + texts_bytes(pushed.drop_first()));
    if items.len() == 0 {
        assert(items =~= Seq::<Seq<char>>::empty());
        assert(pushed.drop_first() =~= Seq::<Seq<char>>::empty());
        assert(texts_bytes(Seq::<Seq<char>>::empty()) =~= Seq::<u8>::empty());
        assert(texts_bytes(pushed) =~= texts_bytes(items) + text_bytes(last));
    } else {
        assert(pushed.drop_first() =~= items.drop_first().push(last));
        lemma_texts_bytes_push(items.drop_first(), last);
        assert(texts_bytes(items) == text_bytes(items[0]) + texts_bytes(items.drop_first()));
        assert(texts_bytes(pushed) =~= texts_bytes(items) + text_bytes(last));
    }
}

pub proof fn lemma_lines_bytes_push(items: Seq<usize>, last: usize)
    ensures
        lines_bytes(items.push(last)) == lines_bytes(items) + u32_bytes(last as int % 0x1_0000_0000),
    decreases items.len(),
{
    let pushed = items.push(last);
    assert(pushed[0] == if items.len() == 0 {
        last
    } else {
        items[0]
    });
    assert(lines_bytes(pushed) == u32_bytes(pushed[0] as int % 0x1_0000_0000) + lines_bytes(pushed.drop_first()));
    if items.len() == 0 {
        assert(items =~= Seq::<usize>::empty());
        assert(pushed.drop_first() =~= Seq::<usize>::empty());
        assert(lines_bytes(Seq::<usize>::empty()) =~= Seq::<u8>::empty());
        assert(lines_bytes(pushed) =~= lines_bytes(items) + u32_bytes(last as int % 0x1_0000_0000));
    } else {
        assert(pushed.drop_first() =~= items.drop_first().push(last));
        lemma_lines_bytes_push(items.drop_first(), last);
        assert(lines_bytes(items) == u32_bytes(items[0] as int % 0x1_0000_0000) + lines_bytes(items.drop_first()));
        assert(lines_bytes(pushed) =~= lines_bytes(items) + u32_bytes(last as int % 0x1_0000_0000));
    }
}

pub proof fn lemma_params_bytes_push(items: Seq<(Seq<char>, ValueType)>, last: (Seq<char>, ValueType))
    ensures
        params_bytes(items.push(last)) == params_bytes(items) + (text_bytes(last.0) + seq![last.1.tag()]),
    decreases items.len(),
{
    let pushed = items.push(last);
    assert(pushed[0] == if items.len() == 0 {
        last
    } else {
        items[0]
    });
    assert(params_bytes(pushed) == (text_bytes(pushed[0].0) + seq![pushed[0].1.tag()]) + params_bytes(pushed.drop_first()));
    if items.len() == 0 {
        assert(items =~= Seq::<(Seq<char>, ValueType)>::empty());
        assert(pushed.drop_first() =~= Seq::<(Seq<char>, ValueType)>::empty());
        assert(params_bytes(Seq::<(Seq<char>, ValueType)>::empty()) =~= Seq::<u8>::empty());
        assert(params_bytes(pushed) =~= params_bytes(items) + (text_bytes(last.0) + seq![last.1.tag()]));
    } else {
        assert(pushed.drop_first() =~= items.drop_first().push(last));
        lemma_params_bytes_push(items.drop_first(), last);
        assert(params_bytes(items) == (text_bytes(items[0].0) + seq![items[0].1.tag()]) + params_bytes(items.drop_first()));
        assert(params_bytes(pushed) =~= params_bytes(items) + (text_bytes(last.0) + seq![last.1.tag()]));
    }
}

pub proof fn lemma_functions_bytes_push(items: Seq<FunctionInfoView>, last: FunctionInfoView)
    ensures
        functions_bytes(items.push(last)) == functions_bytes(items) + function_bytes(last),
    decreases items.len(),
{
    let pushed = items.push(last);
    assert(pushed[0] == if items.len() == 0 {
        last
    } else {
        items[0]
    });
    assert(functions_bytes(pushed) == function_bytes(pushed[0]) + functions_bytes(pushed.drop_first()));
    if items.len() == 0 {
        assert(items =~= Seq::<FunctionInfoView>::empty());
        assert(pushed.drop_first() =~= Seq::<FunctionInfoView>::empty());
        assert(functions_bytes(Seq::<FunctionInfoView>::empty()) =~= Seq::<u8>::empty());
        assert(functions_bytes(pushed) =~= functions_bytes(items) + function_bytes(last));
    } else {
        assert(pushed.drop_first() =~= items.drop_first().push(last));
        lemma_functions_bytes_push(items.drop_first(), last);
        assert(functions_bytes(items) == function_bytes(items[0]) + functions_bytes(items.drop_first()));
        assert(functions_bytes(pushed) =~= functions_bytes(items) + function_bytes(last));
    }
}

/// Serializer for bytecode: it writes a chunk as the bytes of a file, and
/// reads such bytes back.
pub struct BytecodeSerializer;

impl BytecodeSerializer {
    // -----------------------------------------------------------------------
    // Writing
    // -----------------------------------------------------------------------
    pub fn write_u16(writer: &mut Vec<u8>, value: u16)
        ensures
            final(writer)@ == old(writer)@ + u16_bytes(value as int),
    {
        writer.push((value % 256) as u8);
        writer.push((value / 256) as u8);
        proof {
            reveal(u16_bytes);
            assert(writer@ =~= old(writer)@ + u16_bytes(value as int));
        }
    }

    pub fn write_u32(writer: &mut Vec<u8>, value: u32)
        ensures
            final(writer)@ == old(writer)@ + u32_bytes(value as int),
    {
        writer.push((value % 256) as u8);
        writer.push(((value / 256) % 256) as u8);
        writer.push(((value / 65536) % 256) as u8);
        writer.push((value / 16777216) as u8);
        proof {
            reveal(u32_bytes);
            assert(writer@ =~= old(writer)@ + u32_bytes(value as int));
        }
    }

    fn write_u64(writer: &mut Vec<u8>, value: u64)
        ensures
            final(writer)@ == old(writer)@ + u64_bytes(value as int),
    {
        Self::write_u32(writer, (value % 0x1_0000_0000) as u32);
        Self::write_u32(writer, (value / 0x1_0000_0000) as u32);
        proof {
            assert(writer@ =~= old(writer)@ + u64_bytes(value as int));
        }
    }

    pub fn write_i64(writer: &mut Vec<u8>, value: i64)
        ensures
            final(writer)@ == old(writer)@ + u64_bytes(unsigned_of(value)),
    {
        let bits: u64 = if value < 0 {
            ((value + 0x7fff_ffff_ffff_ffff) + 1) as u64 + 0x8000_0000_0000_0000
        } else {
            value as u64
        };
        Self::write_u64(writer, bits);
    }

    /// Writes a real as the eight bytes of its bit pattern.
    pub fn write_real(writer: &mut Vec<u8>, value: Real)
        ensures
            final(writer)@ == old(writer)@ + u64_bytes(value.bits as int),
    {
        Self::write_u64(writer, value.bits);
    }

    pub fn write_string(writer: &mut Vec<u8>, s: &str)
        ensures
            final(writer)@ == old(writer)@ + text_bytes(s@),
    {
        let bytes = s.as_bytes();
        Self::write_u16(writer, (bytes.len() % 65536) as u16);
        let ghost before = writer@;
        let mut i: usize = 0;
        while i < bytes.len()
            invariant
                i <= bytes.len(),
                bytes@ == encode_utf8(s@),
                writer@ == before + bytes@.take(i as int),
            decreases bytes.len() - i,
        {
            writer.push(bytes[i]);
            proof {
                assert(bytes@.take(i + 1) =~= bytes@.take(i as int).push(bytes@[i as int]));
                assert(writer@ =~= before + bytes@.take(i + 1));
            }
            i += 1;
        }
        proof {
            assert(bytes@.take(i as int) =~= bytes@);
            assert(writer@ =~= old(writer)@ + text_bytes(s@));
        }
    }

    fn write_values(writer: &mut Vec<u8>, values: &Vec<Value>)
        ensures
            final(writer)@ == old(writer)@ + values_bytes(views_of(values@)),
        decreases values, 1int,
    {
        let ghost all = views_of(values@);
        let mut i: usize = 0;
        while i < values.len()
            invariant
                i <= values.len(),
                all == views_of(values@),
                writer@ == old(writer)@ + values_bytes(all.take(i as int)),
            decreases values.len() - i,
        {
            proof {
                assert(all.take(i + 1) =~= all.take(i as int).push(all[i as int]));
                lemma_values_bytes_push(all.take(i as int), all[i as int]);
            }
            let ghost before = writer@;
            Self::write_value(writer, &values[i]);
            proof {
                assert(writer@ =~= old(writer)@ + values_bytes(all.take(i + 1)));
            }
            i += 1;
        }
        proof {
            assert(all.take(i as int) =~= all);
        }
    }

    fn write_entries(writer: &mut Vec<u8>, entries: &Vec<(Value, Value)>)
        ensures
            final(writer)@ == old(writer)@ + entries_bytes(entry_views_of(entries@)),
        decreases entries, 1int,
    {
        let ghost all = entry_views_of(entries@);
        let mut i: usize = 0;
        while i < entries.len()
            invariant
                i <= entries.len(),
                all == entry_views_of(entries@),
                writer@ == old(writer)@ + entries_bytes(all.take(i as int)),
            decreases entries.len() - i,
        {
            proof {
                assert(all.take(i + 1) =~= all.take(i as int).push(all[i as int]));
                lemma_entries_bytes_push(all.take(i as int), all[i as int]);
            }
            Self::write_value(writer, &entries[i].0);
            Self::write_value(writer, &entries[i].1);
            proof {
                assert(writer@ =~= old(writer)@ + entries_bytes(all.take(i + 1)));
            }
            i += 1;
        }
        proof {
            assert(all.take(i as int) =~= all);
        }
    }

    /// Writes a value: its type tag, then its payload.
    #[verifier::rlimit(50)]
    pub fn write_value(writer: &mut Vec<u8>, value: &Value)
        ensures
            final(writer)@ == old(writer)@ + value_bytes(value@),
        decreases value, 0int,
    {
        match value {
            Value::Null => {
                writer.push(7);
                proof {
                    assert(writer@ =~= old(writer)@ + value_bytes(value@));
                }
            },
            Value::Integer(i) => {
                writer.push(0);
                Self::write_i64(writer, *i);
                proof {
                    assert(writer@ =~= old(writer)@ + value_bytes(value@));
                }
            },
            Value::Real(x) => {
                writer.push(1);
                Self::write_real(writer, *x);
                proof {
                    assert(writer@ =~= old(writer)@ + value_bytes(value@));
                }
            },
            Value::Boolean(b) => {
                writer.push(3);
                writer.push(
                    if *b {
                        1
                    } else {
                        0
                    },
                );
                proof {
                    assert(writer@ =~= old(writer)@ + value_bytes(value@));
                }
            },
            Value::String(s) => {
                writer.push(2);
                Self::write_string(writer, s.as_str());
                proof {
                    assert(writer@ =~= old(writer)@ + value_bytes(value@));
                }
            },
            Value::Rune(c) => {
                writer.push(4);
                Self::write_u32(writer, *c as u32);
                proof {
                    assert(writer@ =~= old(writer)@ + value_bytes(value@));
                }
            },
            Value::Array(items) => {
                writer.push(5);
                Self::write_u16(writer, (items.len() % 65536) as u16);
                Self::write_values(writer, items);
                proof {
                    assert(writer@ =~= old(writer)@ + value_bytes(value@));
                }
            },
            Value::Mapping(entries) => {
                writer.push(6);
                Self::write_u16(writer, (entries.len() % 65536) as u16);
                Self::write_entries(writer, entries);
                proof {
                    assert(writer@ =~= old(writer)@ + value_bytes(value@));
                }
            },
            Value::Function(index) => {
                writer.push(8);
                Self::write_u16(writer, (*index % 65536) as u16);
                proof {
                    assert(writer@ =~= old(writer)@ + value_bytes(value@));
                }
            },
            Value::ClosureVal(closure) => {
                writer.push(9);
                Self::write_u16(writer, (closure.function_index % 65536) as u16);
                Self::write_u16(writer, (closure.captures.len() % 65536) as u16);
                Self::write_values(writer, &closure.captures);
                proof {
                    assert(writer@ =~= old(writer)@ + value_bytes(value@));
                }
            },
            Value::Module(index) => {
                writer.push(10);
                Self::write_u16(writer, (*index % 65536) as u16);
                proof {
                    assert(writer@ =~= old(writer)@ + value_bytes(value@));
                }
            },
        }
    }

    /// Writes a function entry. The names that the function captures have
    /// no place in the format.
    #[verifier::rlimit(50)]
    pub fn write_function(writer: &mut Vec<u8>, func: &FunctionInfo)
        ensures
            final(writer)@ == old(writer)@ + function_bytes(func@),
    {
        Self::write_string(writer, func.name.as_str());
        writer.push(func.arity);
        Self::write_u16(writer, (func.params.len() % 65536) as u16);
        let ghost head = writer@;
        let ghost all = params_of(func.params@);
        let mut i: usize = 0;
        while i < func.params.len()
            invariant
                i <= func.params.len(),
                all == params_of(func.params@),
                writer@ == head + params_bytes(all.take(i as int)),
            decreases func.params.len() - i,
        {
            proof {
                assert(all.take(i + 1) =~= all.take(i as int).push(all[i as int]));
                lemma_params_bytes_push(all.take(i as int), all[i as int]);
            }
            Self::write_string(writer, func.params[i].0.as_str());
            writer.push(func.params[i].1.to_byte());
            proof {
                assert(writer@ =~= head + params_bytes(all.take(i + 1)));
            }
            i += 1;
        }
        Self::write_u32(writer, (func.start as u64 % 0x1_0000_0000) as u32);
        Self::write_u32(writer, (func.length as u64 % 0x1_0000_0000) as u32);
        proof {
            assert(all.take(i as int) =~= all);
            assert(writer@ =~= old(writer)@ + function_bytes(func@));
        }
    }

    /// Writes the line table and the function table of a chunk.
    fn write_tail(chunk: &Chunk, writer: &mut Vec<u8>)
        ensures
            final(writer)@ == old(writer)@ + tail_bytes(chunk@),
    {
        Self::write_u32(writer, (chunk.lines.len() as u64 % 0x1_0000_0000) as u32);
        let ghost before_lines = writer@;
        let mut i: usize = 0;
        while i < chunk.lines.len()
            invariant
                i <= chunk.lines.len(),
                writer@ == before_lines + lines_bytes(chunk.lines@.take(i as int)),
            decreases chunk.lines.len() - i,
        {
            proof {
                assert(chunk.lines@.take(i + 1) =~= chunk.lines@.take(i as int).push(
                    chunk.lines@[i as int],
                ));
                lemma_lines_bytes_push(chunk.lines@.take(i as int), chunk.lines@[i as int]);
            }
            let line = chunk.lines[i];
            Self::write_u32(writer, (line as u64 % 0x1_0000_0000) as u32);
            proof {
                assert(writer@ =~= before_lines + lines_bytes(chunk.lines@.take(i + 1)));
            }
            i += 1;
        }
        proof {
            assert(chunk.lines@.take(i as int) =~= chunk.lines@);
        }
        Self::write_u16(writer, (chunk.functions.len() % 65536) as u16);
        let ghost before_functions = writer@;
        let ghost functions = function_views_of(chunk.functions@);
        let mut i: usize = 0;
        while i < chunk.functions.len()
            invariant
                i <= chunk.functions.len(),
                functions == function_views_of(chunk.functions@),
                writer@ == before_functions + functions_bytes(functions.take(i as int)),
            decreases chunk.functions.len() - i,
        {
            proof {
                assert(functions.take(i + 1) =~= functions.take(i as int).push(
                    functions[i as int],
                ));
                lemma_functions_bytes_push(functions.take(i as int), functions[i as int]);
            }
            Self::write_function(writer, &chunk.functions[i]);
            proof {
                assert(writer@ =~= before_functions + functions_bytes(functions.take(i + 1)));
            }
            i += 1;
        }
        proof {
            assert(functions.take(i as int) =~= functions);
            assert(writer@ =~= old(writer)@ + tail_bytes(chunk@));
        }
    }

    /// Writes the constant pool and the string pool of a chunk, and what
    /// follows them.
    fn write_pools(chunk: &Chunk, writer: &mut Vec<u8>)
        ensures
            final(writer)@ == old(writer)@ + pools_bytes(chunk@),
    {
        Self::write_u16(writer, (chunk.constants.len() % 65536) as u16);
        Self::write_values(writer, &chunk.constants);
        Self::write_u16(writer, (chunk.strings.len() % 65536) as u16);
        let ghost before_strings = writer@;
        let ghost strings = texts_of(chunk.strings@);
        let mut i: usize = 0;
        while i < chunk.strings.len()
            invariant
                i <= chunk.strings.len(),
                strings == texts_of(chunk.strings@),
                writer@ == before_strings + texts_bytes(strings.take(i as int)),
            decreases chunk.strings.len() - i,
        {
            proof {
                assert(strings.take(i + 1) =~= strings.take(i as int).push(strings[i as int]));
                lemma_texts_bytes_push(strings.take(i as int), strings[i as int]);
            }
            Self::write_string(writer, chunk.strings[i].as_str());
            proof {
                assert(writer@ =~= before_strings + texts_bytes(strings.take(i + 1)));
            }
            i += 1;
        }
        proof {
            assert(strings.take(i as int) =~= strings);
        }
        Self::write_tail(chunk, writer);
        proof {
            let a = u16_bytes(chunk@.constants.len() as int % 65536);
            let b = values_bytes(chunk@.constants);
            let c = u16_bytes(chunk@.strings.len() as int % 65536);
            let d = texts_bytes(chunk@.strings);
            let e = tail_bytes(chunk@);
            assert(writer@ == ((((old(writer)@ + a) + b) + c) + d) + e);
            assert(((((old(writer)@ + a) + b) + c) + d) + e =~= old(writer)@ + ((((a + b) + c)
                + d) + e));
        }
    }

    /// Serialize a chunk: its file is appended to the writer. Writing to
    /// memory cannot fail.
    pub fn serialize(chunk: &Chunk, writer: &mut Vec<u8>) -> (r: Result<(), SerializeError>)
        ensures
            r is Ok,
            final(writer)@ == old(writer)@ + chunk_bytes(chunk@),
    {
        let header = BytecodeHeader::new();
        writer.push(header.magic[0]);
        writer.push(header.magic[1]);
        writer.push(header.magic[2]);
        writer.push(header.magic[3]);
        writer.push(header.version_major);
        writer.push(header.version_minor);
        writer.push(header.version_patch);
        writer.push(header.flags);
        proof {
            assert(writer@ =~= old(writer)@ + header_bytes());
        }
        Self::write_string(writer, chunk.name.as_str());
        Self::write_u32(writer, (chunk.code.len() as u64 % 0x1_0000_0000) as u32);
        let ghost before_code = writer@;
        let mut i: usize = 0;
        while i < chunk.code.len()
            invariant
                i <= chunk.code.len(),
                writer@ == before_code + chunk.code@.take(i as int),
            decreases chunk.code.len() - i,
        {
            writer.push(chunk.code[i]);
            proof {
                assert(writer@ =~= before_code + chunk.code@.take(i + 1));
            }
            i += 1;
        }
        proof {
            assert(chunk.code@.take(i as int) =~= chunk.code@);
        }
        Self::write_pools(chunk, writer);
        proof {
            assert(writer@ =~= old(writer)@ + chunk_bytes(chunk@));
        }
        Ok(())
    }
}

// ---------------------------------------------------------------------------
// Reading
// ---------------------------------------------------------------------------

/// A value that is read takes at least one byte and ends within the bytes.
pub proof fn lemma_value_at_advances(b: Seq<u8>, pos: int)
    ensures
        value_at(b, pos) matches Ok((_, next)) ==> pos < next <= b.len(),
    decreases b.len() - pos, 0int,
{
    if 0 <= pos < b.len() {
        let tag = b[pos];
        let p = pos + 1;
        if tag == 2 {
        } else if tag == 5 && p + 2 <= b.len() {
            lemma_values_at_advances(b, p + 2, u16_at(b, p) as nat);
        } else if tag == 6 && p + 2 <= b.len() {
            lemma_entries_at_advances(b, p + 2, u16_at(b, p) as nat);
        } else if tag == 9 && p + 4 <= b.len() {
            lemma_values_at_advances(b, p + 4, u16_at(b, p + 2) as nat);
        }
    }
}

pub proof fn lemma_values_at_advances(b: Seq<u8>, pos: int, count: nat)
    requires
        0 <= pos <= b.len(),
    ensures
        values_at(b, pos, count) matches Ok((_, next)) ==> pos <= next <= b.len(),
    decreases b.len() - pos, 1 + count,
{
    if count > 0 {
        lemma_value_at_advances(b, pos);
        match value_at(b, pos) {
            Ok((_, next)) => {
                if pos < next <= b.len() {
                    lemma_values_at_advances(b, next, (count - 1) as nat);
                }
            },
            Err(_) => {},
        }
    }
}

pub proof fn lemma_entries_at_advances(b: Seq<u8>, pos: int, count: nat)
    requires
        0 <= pos <= b.len(),
    ensures
        entries_at(b, pos, count) matches Ok((_, next)) ==> pos <= next <= b.len(),
    decreases b.len() - pos, 1 + count,
{
    if count > 0 {
        lemma_value_at_advances(b, pos);
        match value_at(b, pos) {
            Ok((_, middle)) => {
                if pos < middle <= b.len() {
                    lemma_value_at_advances(b, middle);
                    match value_at(b, middle) {
                        Ok((_, next)) => {
                            if middle < next <= b.len() {
                                lemma_entries_at_advances(b, next, (count - 1) as nat);
                            }
                        },
                        Err(_) => {},
                    }
                }
            },
            Err(_) => {},
        }
    }
}

impl BytecodeSerializer {
    fn read_u8(bytes: &[u8], pos: &mut usize) -> (r: Result<u8, SerializeError>)
        ensures
            old(pos) < bytes@.len() ==> r == Ok::<u8, SerializeError>(bytes@[*old(pos) as int])
                && *final(pos) == *old(pos) + 1,
            old(pos) >= bytes@.len() ==> (r matches Err(x) && reports(x, WireError::Truncated))
                && *final(pos) == *old(pos),
    {
        if *pos >= bytes.len() {
            return Err(truncated());
        }
        let byte = bytes[*pos];
        *pos = *pos + 1;
        Ok(byte)
    }

    pub fn read_u16(bytes: &[u8], pos: &mut usize) -> (r: Result<u16, SerializeError>)
        ensures
            old(pos) + 2 <= bytes@.len() ==> (r matches Ok(v) && v == u16_at(
                bytes@,
                *old(pos) as int,
            )) && *final(pos) == *old(pos) + 2,
            old(pos) + 2 > bytes@.len() ==> (r matches Err(x) && reports(x, WireError::Truncated))
                && *final(pos) == *old(pos),
    {
        if *pos > bytes.len() || bytes.len() - *pos < 2 {
            return Err(truncated());
        }
        let low = bytes[*pos] as u16;
        let high = bytes[*pos + 1] as u16;
        *pos = *pos + 2;
        Ok(high * 256 + low)
    }

    pub fn read_u32(bytes: &[u8], pos: &mut usize) -> (r: Result<u32, SerializeError>)
        ensures
            old(pos) + 4 <= bytes@.len() ==> (r matches Ok(v) && v == u32_at(
                bytes@,
                *old(pos) as int,
            )) && *final(pos) == *old(pos) + 4,
            old(pos) + 4 > bytes@.len() ==> (r matches Err(x) && reports(x, WireError::Truncated))
                && *final(pos) == *old(pos),
    {
        if *pos > bytes.len() || bytes.len() - *pos < 4 {
            return Err(truncated());
        }
        let b0 = bytes[*pos] as u32;
        let b1 = bytes[*pos + 1] as u32;
        let b2 = bytes[*pos + 2] as u32;
        let b3 = bytes[*pos + 3] as u32;
        *pos = *pos + 4;
        Ok(b0 + 256 * b1 + 65536 * b2 + 16777216 * b3)
    }

    fn read_u64(bytes: &[u8], pos: &mut usize) -> (r: Result<u64, SerializeError>)
        ensures
            old(pos) + 8 <= bytes@.len() ==> (r matches Ok(v) && v == u64_at(
                bytes@,
                *old(pos) as int,
            )) && *final(pos) == *old(pos) + 8,
            old(pos) + 8 > bytes@.len() ==> (r matches Err(x) && reports(x, WireError::Truncated)),
    {
        if *pos > bytes.len() || bytes.len() - *pos < 8 {
            return Err(truncated());
        }
        let low = Self::read_u32(bytes, pos)? as u64;
        let high = Self::read_u32(bytes, pos)? as u64;
        Ok(low + 0x1_0000_0000 * high)
    }

    pub fn read_i64(bytes: &[u8], pos: &mut usize) -> (r: Result<i64, SerializeError>)
        ensures
            old(pos) + 8 <= bytes@.len() ==> (r matches Ok(v) && v == signed_of(
                u64_at(bytes@, *old(pos) as int),
            )) && *final(pos) == *old(pos) + 8,
            old(pos) + 8 > bytes@.len() ==> (r matches Err(x) && reports(x, WireError::Truncated)),
    {
        let bits = Self::read_u64(bytes, pos)?;
        if bits >= 0x8000_0000_0000_0000 {
            Ok(((bits - 0x8000_0000_0000_0000) as i64 - 0x7fff_ffff_ffff_ffff) - 1)
        } else {
            Ok(bits as i64)
        }
    }

    /// Reads a real from the eight bytes of its bit pattern.
    pub fn read_real(bytes: &[u8], pos: &mut usize) -> (r: Result<Real, SerializeError>)
        ensures
            old(pos) + 8 <= bytes@.len() ==> (r matches Ok(v) && v.bits == u64_at(
                bytes@,
                *old(pos) as int,
            )) && *final(pos) == *old(pos) + 8,
            old(pos) + 8 > bytes@.len() ==> (r matches Err(x) && reports(x, WireError::Truncated)),
    {
        let bits = Self::read_u64(bytes, pos)?;
        Ok(Real { bits })
    }

    pub fn read_string(bytes: &[u8], pos: &mut usize) -> (r: Result<String, SerializeError>)
        ensures
            match text_at(bytes@, *old(pos) as int) {
                Ok((s, next)) => (r matches Ok(text) && text@ == s) && *final(pos) == next,
                Err(e) => r matches Err(x) && reports(x, e),
            },
    {
        let len = Self::read_u16(bytes, pos)? as usize;
        if bytes.len() - *pos < len {
            return Err(truncated());
        }
        let start = *pos;
        let mut raw: Vec<u8> = Vec::new();
        let mut i: usize = 0;
        while i < len
            invariant
                i <= len,
                start + len <= bytes@.len(),
                start + len <= usize::MAX,
                raw@ == bytes@.subrange(start as int, start + i),
            decreases len - i,
        {
            raw.push(bytes[start + i]);
            proof {
                assert(raw@ =~= bytes@.subrange(start as int, start + i + 1));
            }
            i += 1;
        }
        *pos = start + len;
        match string_from_utf8(raw) {
            Some(text) => Ok(text),
            None => Err(SerializeError::CorruptedData { offset: 0 }),
        }
    }

    fn read_values(bytes: &[u8], pos: &mut usize, count: usize) -> (r: Result<
        Vec<Value>,
        SerializeError,
    >)
        requires
            *old(pos) <= bytes@.len(),
        ensures
            match values_at(bytes@, *old(pos) as int, count as nat) {
                Ok((items, next)) => (r matches Ok(values) && views_of(values@) == items)
                    && *final(pos) == next,
                Err(e) => r matches Err(x) && reports(x, e),
            },
        decreases bytes@.len() - *old(pos), 1 + count,
    {
        let ghost b = bytes@;
        let ghost all = values_at(b, *pos as int, count as nat);
        let mut values: Vec<Value> = Vec::new();
        let mut i: usize = 0;
        while i < count
            invariant
                i <= count,
                b == bytes@,
                *old(pos) <= *pos <= b.len(),
                all == values_at(b, *old(pos) as int, count as nat),
                match values_at(b, *pos as int, (count - i) as nat) {
                    Ok((rest, end)) => all == Ok::<(Seq<ValueView>, int), WireError>(
                        (views_of(values@) + rest, end),
                    ),
                    Err(e) => all == Err::<(Seq<ValueView>, int), WireError>(e),
                },
            decreases count - i,
        {
            let ghost from = *pos as int;
            let ghost before = views_of(values@);
            proof {
                lemma_value_at_advances(b, from);
            }
            let value = Self::read_value(bytes, pos)?;
            proof {
                lemma_views_of_push(values@, value);
                match values_at(b, *pos as int, (count - i - 1) as nat) {
                    Ok((rest, end)) => {
                        assert(before + (seq![value@] + rest) =~= before.push(value@) + rest);
                    },
                    Err(_) => {},
                }
            }
            values.push(value);
            i += 1;
        }
        proof {
            assert(views_of(values@) + Seq::<ValueView>::empty() =~= views_of(values@));
        }
        Ok(values)
    }

    fn read_entries(bytes: &[u8], pos: &mut usize, count: usize) -> (r: Result<
        Vec<(Value, Value)>,
        SerializeError,
    >)
        requires
            *old(pos) <= bytes@.len(),
        ensures
            match entries_at(bytes@, *old(pos) as int, count as nat) {
                Ok((items, next)) => (r matches Ok(entries) && entry_views_of(entries@) == items)
                    && *final(pos) == next,
                Err(e) => r matches Err(x) && reports(x, e),
            },
        decreases bytes@.len() - *old(pos), 1 + count,
    {
        let ghost b = bytes@;
        let ghost all = entries_at(b, *pos as int, count as nat);
        let mut entries: Vec<(Value, Value)> = Vec::new();
        let mut i: usize = 0;
        while i < count
            invariant
                i <= count,
                b == bytes@,
                *old(pos) <= *pos <= b.len(),
                all == entries_at(b, *old(pos) as int, count as nat),
                match entries_at(b, *pos as int, (count - i) as nat) {
                    Ok((rest, end)) => all == Ok::<(Seq<(ValueView, ValueView)>, int), WireError>(
                        (entry_views_of(entries@) + rest, end),
                    ),
                    Err(e) => all == Err::<(Seq<(ValueView, ValueView)>, int), WireError>(e),
                },
            decreases count - i,
        {
            let ghost from = *pos as int;
            let ghost before = entry_views_of(entries@);
            proof {
                lemma_value_at_advances(b, from);
            }
            let key = Self::read_value(bytes, pos)?;
            proof {
                lemma_value_at_advances(b, *pos as int);
            }
            let value = Self::read_value(bytes, pos)?;
            proof {
                lemma_entry_views_of_push(entries@, (key, value));
                match entries_at(b, *pos as int, (count - i - 1) as nat) {
                    Ok((rest, end)) => {
                        assert(before + (seq![(key@, value@)] + rest) =~= before.push(
                            (key@, value@),
                        ) + rest);
                    },
                    Err(_) => {},
                }
            }
            entries.push((key, value));
            i += 1;
        }
        proof {
            assert(entry_views_of(entries@) + Seq::<(ValueView, ValueView)>::empty()
                =~= entry_views_of(entries@));
        }
        Ok(entries)
    }

    /// Reads a value: its type tag, then its payload. A tag that stands for
    /// no type is refused.
    pub fn read_value(bytes: &[u8], pos: &mut usize) -> (r: Result<Value, SerializeError>)
        ensures
            match value_at(bytes@, *old(pos) as int) {
                Ok((v, next)) => (r matches Ok(value) && value@ == v) && *final(pos) == next,
                Err(e) => r matches Err(x) && reports(x, e),
            },
        decreases bytes@.len() - *old(pos), 0int,
    {
        let tag = Self::read_u8(bytes, pos)?;
        if tag == 7 {
            Ok(Value::Null)
        } else if tag == 0 {
            let i = Self::read_i64(bytes, pos)?;
            Ok(Value::Integer(i))
        } else if tag == 1 {
            let x = Self::read_real(bytes, pos)?;
            Ok(Value::Real(x))
        } else if tag == 3 {
            let flag = Self::read_u8(bytes, pos)?;
            Ok(Value::Boolean(flag != 0))
        } else if tag == 2 {
            let s = Self::read_string(bytes, pos)?;
            Ok(Value::String(s))
        } else if tag == 4 {
            let code = Self::read_u32(bytes, pos)?;
            let c = match char_from_u32(code) {
                Some(c) => {
                    proof {
                        vstd::utf8::char_u32_cast(c, code);
                    }
                    c
                },
                None => '\0',
            };
            Ok(Value::Rune(c))
        } else if tag == 5 {
            let count = Self::read_u16(bytes, pos)? as usize;
            let items = Self::read_values(bytes, pos, count)?;
            Ok(Value::Array(items))
        } else if tag == 6 {
            let count = Self::read_u16(bytes, pos)? as usize;
            let entries = Self::read_entries(bytes, pos, count)?;
            Ok(Value::Mapping(entries))
        } else if tag == 8 {
            let index = Self::read_u16(bytes, pos)? as usize;
            Ok(Value::Function(index))
        } else if tag == 9 {
            if *pos > bytes.len() || bytes.len() - *pos < 4 {
                return Err(truncated());
            }
            let index = Self::read_u16(bytes, pos)? as usize;
            let count = Self::read_u16(bytes, pos)? as usize;
            let captures = Self::read_values(bytes, pos, count)?;
            Ok(Value::ClosureVal(Box::new(Closure::new(index, captures))))
        } else if tag == 10 {
            let index = Self::read_u16(bytes, pos)? as usize;
            Ok(Value::Module(index))
        } else {
            Err(SerializeError::UnknownValueType(tag))
        }
    }
}

impl BytecodeSerializer {
    fn read_texts(bytes: &[u8], pos: &mut usize, count: usize) -> (r: Result<
        Vec<String>,
        SerializeError,
    >)
        ensures
            match texts_at(bytes@, *old(pos) as int, count as nat) {
                Ok((items, next)) => (r matches Ok(texts) && texts_of(texts@) == items)
                    && *final(pos) == next,
                Err(e) => r matches Err(x) && reports(x, e),
            },
    {
        let ghost b = bytes@;
        let ghost all = texts_at(b, *pos as int, count as nat);
        let mut texts: Vec<String> = Vec::new();
        let mut i: usize = 0;
        while i < count
            invariant
                i <= count,
                b == bytes@,
                all == texts_at(b, *old(pos) as int, count as nat),
                match texts_at(b, *pos as int, (count - i) as nat) {
                    Ok((rest, end)) => all == Ok::<(Seq<Seq<char>>, int), WireError>(
                        (texts_of(texts@) + rest, end),
                    ),
                    Err(e) => all == Err::<(Seq<Seq<char>>, int), WireError>(e),
                },
            decreases count - i,
        {
            let ghost before = texts_of(texts@);
            let text = Self::read_string(bytes, pos)?;
            proof {
                match texts_at(b, *pos as int, (count - i - 1) as nat) {
                    Ok((rest, end)) => {
                        assert(before + (seq![text@] + rest) =~= before.push(text@) + rest);
                    },
                    Err(_) => {},
                }
            }
            texts.push(text);
            proof {
                assert(texts_of(texts@) =~= before.push(text@));
            }
            i += 1;
        }
        proof {
            assert(texts_of(texts@) + Seq::<Seq<char>>::empty() =~= texts_of(texts@));
        }
        Ok(texts)
    }

    fn read_lines(bytes: &[u8], pos: &mut usize, count: usize) -> (r: Result<
        Vec<usize>,
        SerializeError,
    >)
        ensures
            match lines_at(bytes@, *old(pos) as int, count as nat) {
                Ok((items, next)) => (r matches Ok(lines) && lines@ == items) && *final(pos)
                    == next,
                Err(e) => r matches Err(x) && reports(x, e),
            },
    {
        let ghost b = bytes@;
        let ghost all = lines_at(b, *pos as int, count as nat);
        let mut lines: Vec<usize> = Vec::new();
        let mut i: usize = 0;
        while i < count
            invariant
                i <= count,
                b == bytes@,
                all == lines_at(b, *old(pos) as int, count as nat),
                match lines_at(b, *pos as int, (count - i) as nat) {
                    Ok((rest, end)) => all == Ok::<(Seq<usize>, int), WireError>(
                        (lines@ + rest, end),
                    ),
                    Err(e) => all == Err::<(Seq<usize>, int), WireError>(e),
                },
            decreases count - i,
        {
            let ghost before = lines@;
            let line = Self::read_u32(bytes, pos)? as usize;
            proof {
                match lines_at(b, *pos as int, (count - i - 1) as nat) {
                    Ok((rest, end)) => {
                        assert(before + (seq![line] + rest) =~= before.push(line) + rest);
                    },
                    Err(_) => {},
                }
            }
            lines.push(line);
            i += 1;
        }
        proof {
            assert(lines@ + Seq::<usize>::empty() =~= lines@);
        }
        Ok(lines)
    }

    fn read_params(bytes: &[u8], pos: &mut usize, count: usize) -> (r: Result<
        Vec<(String, ValueType)>,
        SerializeError,
    >)
        ensures
            match params_at(bytes@, *old(pos) as int, count as nat) {
                Ok((items, next)) => (r matches Ok(params) && params_of(params@) == items)
                    && *final(pos) == next,
                Err(e) => r matches Err(x) && reports(x, e),
            },
    {
        let ghost b = bytes@;
        let ghost all = params_at(b, *pos as int, count as nat);
        let mut params: Vec<(String, ValueType)> = Vec::new();
        let mut i: usize = 0;
        while i < count
            invariant
                i <= count,
                b == bytes@,
                all == params_at(b, *old(pos) as int, count as nat),
                match params_at(b, *pos as int, (count - i) as nat) {
                    Ok((rest, end)) => all == Ok::<(Seq<(Seq<char>, ValueType)>, int), WireError>(
                        (params_of(params@) + rest, end),
                    ),
                    Err(e) => all == Err::<(Seq<(Seq<char>, ValueType)>, int), WireError>(e),
                },
            decreases count - i,
        {
            let ghost before = params_of(params@);
            let name = Self::read_string(bytes, pos)?;
            let tag = Self::read_u8(bytes, pos)?;
            let param_type = match ValueType::from_byte(tag) {
                Some(t) => t,
                None => {
                    return Err(SerializeError::UnknownValueType(tag));
                },
            };
            proof {
                match params_at(b, *pos as int, (count - i - 1) as nat) {
                    Ok((rest, end)) => {
                        assert(before + (seq![(name@, param_type)] + rest) =~= before.push(
                            (name@, param_type),
                        ) + rest);
                    },
                    Err(_) => {},
                }
            }
            params.push((name, param_type));
            proof {
                assert(params_of(params@) =~= before.push((name@, param_type)));
            }
            i += 1;
        }
        proof {
            assert(params_of(params@) + Seq::<(Seq<char>, ValueType)>::empty() =~= params_of(
                params@,
            ));
        }
        Ok(params)
    }

    /// Reads a function entry. It captures nothing: the format has no place
    /// for captured names.
    pub fn read_function(bytes: &[u8], pos: &mut usize) -> (r: Result<
        FunctionInfo,
        SerializeError,
    >)
        ensures
            match function_at(bytes@, *old(pos) as int) {
                Ok((f, next)) => (r matches Ok(info) && info@ == f) && *final(pos) == next,
                Err(e) => r matches Err(x) && reports(x, e),
            },
    {
        let name = Self::read_string(bytes, pos)?;
        if *pos > bytes.len() || bytes.len() - *pos < 3 {
            return Err(truncated());
        }
        let arity = Self::read_u8(bytes, pos)?;
        let count = Self::read_u16(bytes, pos)? as usize;
        let params = Self::read_params(bytes, pos, count)?;
        if *pos > bytes.len() || bytes.len() - *pos < 8 {
            return Err(truncated());
        }
        let start = Self::read_u32(bytes, pos)? as usize;
        let length = Self::read_u32(bytes, pos)? as usize;
        let info = FunctionInfo::new(name, arity, params, start, length);
        proof {
            assert(texts_of(info.capture_names@) =~= Seq::<Seq<char>>::empty());
        }
        Ok(info)
    }

    fn read_functions(bytes: &[u8], pos: &mut usize, count: usize) -> (r: Result<
        Vec<FunctionInfo>,
        SerializeError,
    >)
        ensures
            match functions_at(bytes@, *old(pos) as int, count as nat) {
                Ok((items, next)) => (r matches Ok(functions) && function_views_of(functions@)
                    == items) && *final(pos) == next,
                Err(e) => r matches Err(x) && reports(x, e),
            },
    {
        let ghost b = bytes@;
        let ghost all = functions_at(b, *pos as int, count as nat);
        let mut functions: Vec<FunctionInfo> = Vec::new();
        let mut i: usize = 0;
        while i < count
            invariant
                i <= count,
                b == bytes@,
                all == functions_at(b, *old(pos) as int, count as nat),
                match functions_at(b, *pos as int, (count - i) as nat) {
                    Ok((rest, end)) => all == Ok::<(Seq<FunctionInfoView>, int), WireError>(
                        (function_views_of(functions@) + rest, end),
                    ),
                    Err(e) => all == Err::<(Seq<FunctionInfoView>, int), WireError>(e),
                },
            decreases count - i,
        {
            let ghost before = function_views_of(functions@);
            let info = Self::read_function(bytes, pos)?;
            proof {
                match functions_at(b, *pos as int, (count - i - 1) as nat) {
                    Ok((rest, end)) => {
                        assert(before + (seq![info@] + rest) =~= before.push(info@) + rest);
                    },
                    Err(_) => {},
                }
            }
            functions.push(info);
            proof {
                assert(function_views_of(functions@) =~= before.push(info@));
            }
            i += 1;
        }
        proof {
            assert(function_views_of(functions@) + Seq::<FunctionInfoView>::empty()
                =~= function_views_of(functions@));
        }
        Ok(functions)
    }

    /// Reads the line table and the function table, which complete a chunk.
    fn read_tail(
        bytes: &[u8],
        pos: &mut usize,
        name: String,
        code: Vec<u8>,
        constants: Vec<Value>,
        strings: Vec<String>,
    ) -> (r: Result<Chunk, SerializeError>)
        ensures
            match tail_of(
                bytes@,
                *old(pos) as int,
                name@,
                code@,
                views_of(constants@),
                texts_of(strings@),
            ) {
                Ok(c) => r matches Ok(chunk) && chunk@ == c,
                Err(e) => r matches Err(x) && reports(x, e),
            },
    {
        let count = Self::read_u32(bytes, pos)? as usize;
        let lines = Self::read_lines(bytes, pos, count)?;
        let count = Self::read_u16(bytes, pos)? as usize;
        let functions = Self::read_functions(bytes, pos, count)?;
        Ok(Chunk { code, constants, strings, lines, name, functions })
    }

    /// Reads the constant pool and the string pool, and what follows them.
    fn read_pools(bytes: &[u8], pos: &mut usize, name: String, code: Vec<u8>) -> (r: Result<
        Chunk,
        SerializeError,
    >)
        requires
            *old(pos) <= bytes@.len(),
        ensures
            match pools_of(bytes@, *old(pos) as int, name@, code@) {
                Ok(c) => r matches Ok(chunk) && chunk@ == c,
                Err(e) => r matches Err(x) && reports(x, e),
            },
    {
        let count = Self::read_u16(bytes, pos)? as usize;
        let constants = Self::read_values(bytes, pos, count)?;
        let count = Self::read_u16(bytes, pos)? as usize;
        let strings = Self::read_texts(bytes, pos, count)?;
        Self::read_tail(bytes, pos, name, code, constants, strings)
    }

    /// Deserialize a chunk from the bytes of a file. A file whose major
    /// version is not the runtime's is refused.
    pub fn deserialize(bytes: &[u8]) -> (r: Result<Chunk, SerializeError>)
        ensures
            match chunk_of(bytes@) {
                Ok(c) => r matches Ok(chunk) && chunk@ == c,
                Err(e) => r matches Err(x) && reports(x, e),
            },
    {
        if bytes.len() < 4 {
            return Err(truncated());
        }
        if !(bytes[0] == MAGIC_0 && bytes[1] == MAGIC_1 && bytes[2] == MAGIC_2 && bytes[3]
            == MAGIC_3) {
            return Err(SerializeError::InvalidMagic);
        }
        if bytes.len() < 8 {
            return Err(truncated());
        }
        let header = BytecodeHeader {
            magic: [bytes[0], bytes[1], bytes[2], bytes[3]],
            version_major: bytes[4],
            version_minor: bytes[5],
            version_patch: bytes[6],
            flags: bytes[7],
        };
        if !header.is_compatible() {
            return Err(
                SerializeError::IncompatibleVersion {
                    file_version: header.version_string(),
                    runtime_version: version_string_of(
                        VERSION_MAJOR,
                        VERSION_MINOR,
                        VERSION_PATCH,
                    ),
                },
            );
        }
        let mut pos: usize = 8;
        let name = Self::read_string(bytes, &mut pos)?;
        if pos > bytes.len() || bytes.len() - pos < 4 {
            return Err(truncated());
        }
        let code_len = Self::read_u32(bytes, &mut pos)? as usize;
        if bytes.len() - pos < code_len {
            return Err(truncated());
        }
        let start = pos;
        let mut code: Vec<u8> = Vec::new();
        let mut i: usize = 0;
        while i < code_len
            invariant
                i <= code_len,
                start + code_len <= bytes@.len(),
                start + code_len <= usize::MAX,
                code@ == bytes@.subrange(start as int, start + i),
            decreases code_len - i,
        {
            code.push(bytes[start + i]);
            proof {
                assert(code@ =~= bytes@.subrange(start as int, start + i + 1));
            }
            i += 1;
        }
        pos = start + code_len;
        Self::read_pools(bytes, &mut pos, name, code)
    }
}

} // verus!
