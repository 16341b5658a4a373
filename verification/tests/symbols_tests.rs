use obfusku::symbols::{SymbolCategory, SymbolMeaning, SymbolTable};

#[test]
fn test_symbol_lookup() {
    let table = SymbolTable::new();

    let int_symbol = table.lookup("⟁").unwrap();
    assert_eq!(int_symbol.meaning, SymbolMeaning::TypeInteger);

    let null_symbol = table.lookup("∅").unwrap();
    assert_eq!(null_symbol.meaning, SymbolMeaning::Null);
}

#[test]
fn test_category_filter() {
    let table = SymbolTable::new();
    let type_symbols = table.symbols_in_category(SymbolCategory::TypeDeclaration);
    assert!(type_symbols.len() >= 4); // At least int, real, string, bool
}

#[test]
fn lookup_matches_the_exact_code_points() {
    let table = SymbolTable::new();
    assert!(table.contains("☠︎"));
    assert!(!table.contains("☠"));
    assert!(table.lookup("x").is_none());
    assert_eq!(table.lookup("⌗").unwrap().meaning, SymbolMeaning::Modulo);
    assert_eq!(table.lookup("⌘").unwrap().meaning, SymbolMeaning::TypeString);
    assert_eq!(table.lookup("⊕").unwrap().meaning, SymbolMeaning::Increment);
    assert_eq!(table.lookup("↺").unwrap().meaning, SymbolMeaning::Continue);
}

#[test]
fn the_longest_glyph_has_two_code_points() {
    let table = SymbolTable::new();
    assert_eq!(table.max_glyph_length(), 2);
}

#[test]
fn category_lists_keep_the_order_of_registration() {
    let table = SymbolTable::new();
    let types = table.symbols_in_category(SymbolCategory::TypeDeclaration);
    let glyphs: Vec<&str> = types.iter().map(|s| s.glyph).collect();
    assert_eq!(glyphs, vec!["⟁", "⧆", "⌘", "☍", "ᚱ", "⌬", "⌖"]);
}
