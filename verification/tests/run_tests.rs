use stock_logos::error::MalformedInput;
use stock_logos::run::{stage_assets, stage_table, Fatal};
use stock_logos::table::Tsv;

#[test]
fn table_stage_yields_table_and_document() {
    let staged = stage_table("Symbol\tName\naapl\tApple\n").unwrap();
    assert_eq!(staged.table.headers, vec!["Symbol".to_string(), "Name".to_string()]);
    assert_eq!(staged.table.rows.len(), 1);
    assert_eq!(staged.document, "[[symbol]]\nSymbol = \"aapl\"\nName = \"Apple\"\n");
}

#[test]
fn table_stage_ends_the_run_on_empty_input() {
    match stage_table("") {
        Err(Fatal::Malformed(e)) => assert_eq!(e, MalformedInput::NoHeaderLine),
        other => panic!("unexpected: {other:?}"),
    }
}

#[test]
fn table_stage_ends_the_run_on_a_short_row() {
    match stage_table("a\tb\n1\n") {
        Err(Fatal::Malformed(e)) => assert_eq!(e, MalformedInput::FieldCount { line: 2 }),
        other => panic!("unexpected: {other:?}"),
    }
}

#[test]
fn asset_stage_yields_the_symbols() {
    let t = Tsv::from_str("symbol\naapl\nbrk.b\n").unwrap();
    let e = stage_assets(&t, true).unwrap();
    assert_eq!(e.symbols, vec!["AAPL".to_string()]);
    assert_eq!(e.skipped, vec!["brk.b".to_string()]);
}

#[test]
fn asset_stage_ends_the_run_when_the_table_was_not_written() {
    let t = Tsv::from_str("symbol\naapl\n").unwrap();
    assert!(matches!(stage_assets(&t, false), Err(Fatal::TableWrite)));
}

#[test]
fn asset_stage_ends_the_run_without_symbol_column() {
    let t = Tsv::from_str("ticker\naapl\n").unwrap();
    match stage_assets(&t, true) {
        Err(Fatal::Malformed(e)) => assert_eq!(e, MalformedInput::MissingSymbolColumn),
        other => panic!("unexpected: {other:?}"),
    }
}
