use stock_logos::error::MalformedInput;
use stock_logos::symbol::{all_alphanumeric, extract_symbols, normalize_symbol, symbol_list};
use stock_logos::table::Tsv;

#[test]
fn normalize_trims_and_upcases() {
    assert_eq!(normalize_symbol(" aapl "), Some("AAPL".to_string()));
}

#[test]
fn normalize_rejects_non_alphanumeric() {
    assert_eq!(normalize_symbol(" brk.b "), None);
    assert_eq!(normalize_symbol("A B"), None);
    assert_eq!(normalize_symbol("A-B"), None);
}

#[test]
fn normalize_keeps_digits() {
    assert_eq!(normalize_symbol("x9"), Some("X9".to_string()));
}

#[test]
fn normalize_uses_unicode_upper_case() {
    assert_eq!(normalize_symbol("straße"), Some("STRASSE".to_string()));
}

#[test]
fn normalize_of_blank_cell_is_the_empty_symbol() {
    assert_eq!(normalize_symbol("   "), Some(String::new()));
}

#[test]
fn all_alphanumeric_checks_every_character() {
    assert!(all_alphanumeric("AbC123é"));
    assert!(all_alphanumeric(""));
    assert!(!all_alphanumeric("ABC "));
    assert!(!all_alphanumeric("_"));
}

#[test]
fn extract_follows_row_order_and_skips() {
    let t = Tsv::from_str("Name\tSymbol\nApple\taapl\nBerkshire\tbrk.b\nIBM\tibm\nX\ta/b\n").unwrap();
    let e = extract_symbols(&t, 1);
    assert_eq!(e.column, 1);
    assert_eq!(e.symbols, vec!["AAPL".to_string(), "IBM".to_string()]);
    assert_eq!(e.skipped, vec!["brk.b".to_string(), "a/b".to_string()]);
}

#[test]
fn extract_emits_only_alphanumeric_symbols() {
    let t = Tsv::from_str("s\na\nb.c\nd e\nf1\n$\n").unwrap();
    let e = extract_symbols(&t, 0);
    assert_eq!(e.symbols.len() + e.skipped.len(), t.rows.len());
    for s in &e.symbols {
        assert!(s.chars().all(|c| c.is_alphanumeric()));
    }
    assert_eq!(e.symbols, vec!["A".to_string(), "F1".to_string()]);
}

#[test]
fn extract_reads_the_later_column_of_a_repeated_header() {
    let t = Tsv::from_str("s\tx\ts\nold\t-\tnew\n").unwrap();
    let e = extract_symbols(&t, 0);
    assert_eq!(e.symbols, vec!["NEW".to_string()]);
}

#[test]
fn symbol_list_finds_the_column_in_any_case() {
    let t = Tsv::from_str("Name\tSYMBOL\nApple\taapl\n").unwrap();
    let e = symbol_list(&t).unwrap();
    assert_eq!(e.column, 1);
    assert_eq!(e.symbols, vec!["AAPL".to_string()]);
    assert!(e.skipped.is_empty());
}

#[test]
fn symbol_list_without_symbol_column_is_an_error() {
    let t = Tsv::from_str("Name\tTicker\nApple\taapl\n").unwrap();
    assert_eq!(symbol_list(&t).unwrap_err(), MalformedInput::MissingSymbolColumn);
}
