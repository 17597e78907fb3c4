use std::collections::HashMap;
use stock_logos::sink::{settle, table_document};
use stock_logos::table::Tsv;

#[test]
fn document_round_trips_every_cell() {
    let t = Tsv::from_str("Symbol\tName\tNote\nAAPL\tApple \"Inc\"\t\nIBM\tI\\B=M\tü #x\n").unwrap();
    let text = table_document(&t).unwrap();
    let back: HashMap<String, Vec<HashMap<String, String>>> = toml::from_str(&text).unwrap();
    assert_eq!(back.len(), 1);
    let rows = &back["symbol"];
    assert_eq!(rows.len(), t.rows.len());
    for (i, row) in rows.iter().enumerate() {
        assert_eq!(row.len(), t.headers.len());
        for (j, h) in t.headers.iter().enumerate() {
            assert_eq!(row[h], t.rows[i][j]);
        }
    }
}

#[test]
fn document_holds_rows_in_order() {
    let t = Tsv::from_str("s\nb\na\nc\n").unwrap();
    let text = table_document(&t).unwrap();
    let back: HashMap<String, Vec<HashMap<String, String>>> = toml::from_str(&text).unwrap();
    let cells: Vec<&str> = back["symbol"].iter().map(|r| r["s"].as_str()).collect();
    assert_eq!(cells, vec!["b", "a", "c"]);
}

#[test]
fn document_is_an_array_of_tables() {
    let t = Tsv::from_str("s\nx\n").unwrap();
    let text = table_document(&t).unwrap();
    assert!(text.contains("[[symbol]]"));
    assert!(text.contains("s = \"x\""));
}

#[test]
fn document_keeps_header_order() {
    let t = Tsv::from_str("zeta\talpha\tmid\n1\t2\t3\n").unwrap();
    let text = table_document(&t).unwrap();
    assert_eq!(text, "[[symbol]]\nzeta = \"1\"\nalpha = \"2\"\nmid = \"3\"\n");
}

#[test]
fn document_of_the_same_table_is_the_same_text() {
    let t = Tsv::from_str("c\tb\ta\nx\ty\tz\nu\tv\tw\n").unwrap();
    assert_eq!(table_document(&t).unwrap(), table_document(&t).unwrap());
}

#[test]
fn document_of_a_table_without_rows() {
    let t = Tsv::from_str("a\tb\n").unwrap();
    let text = table_document(&t).unwrap();
    let back: HashMap<String, Vec<HashMap<String, String>>> = toml::from_str(&text).unwrap();
    assert!(back["symbol"].is_empty());
}

#[test]
fn settle_hands_the_text_on() {
    assert_eq!(settle(Ok("a = 1\n".to_string())).unwrap(), "a = 1\n");
}

#[test]
fn settle_turns_the_serializer_error_into_a_message() {
    let e = toml::to_string(&5u32).unwrap_err();
    let expected = e.to_string();
    let got = settle(Err(e)).unwrap_err();
    assert_eq!(got.message, expected);
}
