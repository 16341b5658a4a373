use obfusku::source_map::{SourceMap, SourcePos, SourceSpan};

#[test]
fn test_source_map() {
    let source = "⟁x=5\n⚡[x]\n❧";
    let map = SourceMap::new(source);

    assert_eq!(map.line_count(), 3);

    let pos = map.offset_to_pos(0);
    assert_eq!(pos.line, 1);
    assert_eq!(pos.column, 1);

    // After first newline (position of ⚡)
    let pos = map.offset_to_pos(8);
    assert_eq!(pos.line, 2);
}

#[test]
fn test_get_line() {
    let source = "line one\nline two\nline three";
    let map = SourceMap::new(source);

    assert_eq!(map.get_line(1), Some("line one"));
    assert_eq!(map.get_line(2), Some("line two"));
    assert_eq!(map.get_line(3), Some("line three"));
    assert_eq!(map.get_line(4), None);
}

#[test]
fn offsets_map_to_lines_and_byte_columns() {
    let map = SourceMap::new("ab\ncd\n");
    assert_eq!(map.line_count(), 3);
    assert_eq!(map.offset_to_pos(2), SourcePos::new(1, 3, 2));
    assert_eq!(map.offset_to_pos(3), SourcePos::new(2, 1, 3));
    assert_eq!(map.offset_to_pos(5), SourcePos::new(2, 3, 5));
    assert_eq!(map.offset_to_pos(6), SourcePos::new(3, 1, 6));
    assert_eq!(map.offset_to_pos(100), SourcePos::new(3, 95, 100));
}

#[test]
fn lines_lose_their_line_ends() {
    let map = SourceMap::new("one\r\ntwo\r\r\n\nlast");
    assert_eq!(map.get_line(1), Some("one"));
    assert_eq!(map.get_line(2), Some("two"));
    assert_eq!(map.get_line(3), Some(""));
    assert_eq!(map.get_line(4), Some("last"));
    assert_eq!(map.get_line(0), None);
}

#[test]
fn errors_are_formatted_with_an_excerpt() {
    let map = SourceMap::new("⟁x=5\n⚡[y]");
    let text = map.format_error(SourcePos::new(2, 3, 10), "unknown name");
    assert_eq!(text, "🔮 Error at line 2, column 3:\n   unknown name\n   │ ⚡[y]\n   │   ^\n");
    let text = map.format_error(SourcePos::new(9, 1, 0), "lost");
    assert_eq!(text, "🔮 Error at line 9, column 1:\n   lost\n");
}

#[test]
fn positions_and_spans() {
    let pos = SourcePos::new(3, 4, 20);
    assert_eq!(pos.to_string(), "3:4");
    let span = SourceSpan::from_pos(pos);
    assert_eq!(span.start, span.end);
    assert_eq!(SourceSpan::new(pos, SourcePos::new(3, 9, 25)).end.column, 9);
    assert_eq!(SourcePos::default(), SourcePos::new(0, 0, 0));
}
