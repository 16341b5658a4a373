use obfusku::bytecode::{Chunk, Closure, FunctionInfo, Value, ValueType};
use obfusku::number::Real;
use obfusku::serialize::{BytecodeHeader, BytecodeSerializer, SerializeError};

#[test]
fn test_serialize_deserialize() {
    let mut chunk = Chunk::new("test");
    chunk.constants.push(Value::Integer(42));
    chunk.constants.push(Value::String("hello".to_string()));
    chunk.strings.push("var_name".to_string());
    chunk.code = vec![0x01, 0x00, 0x00, 0xFF];
    chunk.lines = vec![1, 1, 1, 1];

    let mut buffer = Vec::new();
    BytecodeSerializer::serialize(&chunk, &mut buffer).unwrap();

    let loaded = BytecodeSerializer::deserialize(&buffer).unwrap();

    assert_eq!(loaded.name, "test");
    assert_eq!(loaded.constants.len(), 2);
    assert_eq!(loaded.strings.len(), 1);
    assert_eq!(loaded.code.len(), 4);
}

#[test]
fn the_file_format_is_bit_exact() {
    let mut chunk = Chunk::new("m");
    chunk.code = vec![0xFF];
    chunk.lines = vec![7];
    chunk.constants.push(Value::Integer(-2));
    chunk.constants.push(Value::Boolean(true));
    chunk.strings.push("é".to_string());
    chunk.functions.push(FunctionInfo::new(
        "f".to_string(),
        1,
        vec![("a".to_string(), ValueType::Integer)],
        3,
        4,
    ));
    let mut buffer = Vec::new();
    BytecodeSerializer::serialize(&chunk, &mut buffer).unwrap();
    let expected: Vec<u8> = vec![
        b'O', b'B', b'F', b'K', 1, 0, 0, 0, // header
        1, 0, b'm', // name
        1, 0, 0, 0, 0xFF, // code
        2, 0, // two constants
        0, 0xFE, 0xFF, 0xFF, 0xFF, 0xFF, 0xFF, 0xFF, 0xFF, // integer -2
        3, 1, // true
        1, 0, 2, 0, 0xC3, 0xA9, // one string of two bytes
        1, 0, 0, 0, 7, 0, 0, 0, // one line
        1, 0, // one function
        1, 0, b'f', 1, 1, 0, 1, 0, b'a', 0, 3, 0, 0, 0, 4, 0, 0, 0,
    ];
    assert_eq!(buffer, expected);
}

#[test]
fn every_kind_of_value_comes_back() {
    let mut chunk = Chunk::new("values");
    chunk.constants = vec![
        Value::Null,
        Value::Integer(i64::MIN),
        Value::Integer(i64::MAX),
        Value::Real(Real::from_bits(2.5f64.to_bits())),
        Value::Real(Real::from_bits((-0.0f64).to_bits())),
        Value::Boolean(false),
        Value::String("⟁ glyph".to_string()),
        Value::Rune('ᚱ'),
        Value::Array(vec![Value::Integer(1), Value::Array(vec![Value::Null])]),
        Value::Mapping(vec![(Value::String("a".to_string()), Value::Integer(1))]),
        Value::Function(3),
        Value::ClosureVal(Box::new(Closure::new(2, vec![Value::Integer(7)]))),
        Value::Module(4),
    ];
    chunk.code = vec![1, 2, 3];
    chunk.lines = vec![1, 2, 2];
    chunk.strings = vec!["x".to_string(), "".to_string()];
    let mut buffer = Vec::new();
    BytecodeSerializer::serialize(&chunk, &mut buffer).unwrap();
    let loaded = BytecodeSerializer::deserialize(&buffer).unwrap();
    assert_eq!(loaded.name, chunk.name);
    assert_eq!(loaded.code, chunk.code);
    assert_eq!(loaded.lines, chunk.lines);
    assert_eq!(loaded.strings, chunk.strings);
    assert_eq!(loaded.constants.len(), chunk.constants.len());
    for (a, b) in loaded.constants.iter().zip(chunk.constants.iter()) {
        match (a, b) {
            (Value::Real(x), Value::Real(y)) => assert_eq!(x.to_bits(), y.to_bits()),
            _ => assert_eq!(a, b),
        }
    }
}

#[test]
fn another_major_version_is_refused() {
    let mut buffer = Vec::new();
    BytecodeSerializer::serialize(&Chunk::new("v"), &mut buffer).unwrap();
    buffer[4] = 2;
    buffer[5] = 3;
    match BytecodeSerializer::deserialize(&buffer) {
        Err(SerializeError::IncompatibleVersion { file_version, runtime_version }) => {
            assert_eq!(file_version, "2.3.0");
            assert_eq!(runtime_version, "1.0.0");
        }
        other => panic!("not refused: {:?}", other),
    }
    // A minor version that differs is accepted.
    buffer[4] = 1;
    assert!(BytecodeSerializer::deserialize(&buffer).is_ok());
}

#[test]
fn broken_files_are_refused() {
    let mut buffer = Vec::new();
    let mut chunk = Chunk::new("name");
    chunk.constants.push(Value::Integer(1));
    BytecodeSerializer::serialize(&chunk, &mut buffer).unwrap();
    assert!(matches!(BytecodeSerializer::deserialize(b"OBF"), Err(SerializeError::IoError(_))));
    assert!(matches!(BytecodeSerializer::deserialize(b"NOPE0000"), Err(SerializeError::InvalidMagic)));
    let short = &buffer[..buffer.len() - 3];
    assert!(matches!(BytecodeSerializer::deserialize(short), Err(SerializeError::IoError(_))));
    // The name's only byte made a lone continuation byte.
    let mut bad = buffer.clone();
    bad[10] = 0x80;
    assert!(matches!(BytecodeSerializer::deserialize(&bad), Err(SerializeError::CorruptedData { offset: 0 })));
    // The tag of the constant made a tag that stands for nothing.
    let mut bad = buffer.clone();
    let tag_at = 8 + 2 + 4 + 4 + 2;
    assert_eq!(bad[tag_at], 0);
    bad[tag_at] = 11;
    assert!(matches!(BytecodeSerializer::deserialize(&bad), Err(SerializeError::UnknownValueType(11))));
}

#[test]
fn the_header_is_compatible_with_itself() {
    let header = BytecodeHeader::new();
    assert_eq!(&header.magic, b"OBFK");
    assert_eq!(header.version_string(), "1.0.0");
    assert!(header.is_compatible());
    let other = BytecodeHeader { version_major: 9, ..header };
    assert!(!other.is_compatible());
}

#[test]
fn numbers_are_little_endian() {
    let mut out = Vec::new();
    BytecodeSerializer::write_u16(&mut out, 0x1234);
    BytecodeSerializer::write_u32(&mut out, 0x89ABCDEF);
    BytecodeSerializer::write_i64(&mut out, -1);
    BytecodeSerializer::write_string(&mut out, "hi");
    assert_eq!(
        out,
        vec![0x34, 0x12, 0xEF, 0xCD, 0xAB, 0x89, 255, 255, 255, 255, 255, 255, 255, 255, 2, 0, b'h', b'i']
    );
    let mut pos = 0usize;
    assert_eq!(BytecodeSerializer::read_u16(&out, &mut pos).unwrap(), 0x1234);
    assert_eq!(BytecodeSerializer::read_u32(&out, &mut pos).unwrap(), 0x89ABCDEF);
    assert_eq!(BytecodeSerializer::read_i64(&out, &mut pos).unwrap(), -1);
    assert_eq!(BytecodeSerializer::read_string(&out, &mut pos).unwrap(), "hi");
    assert_eq!(pos, out.len());
    assert!(BytecodeSerializer::read_u16(&out, &mut pos).is_err());
}
