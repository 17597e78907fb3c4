//! The persistence sink's text: the table as a TOML document with one
//! array-valued key that holds every row as a key-value table.

use crate::table::Tsv;
use crate::text::texts;
use vstd::prelude::*;

verus! {

/// The error type of the TOML serializer, `toml::ser::Error`, carried
/// through as an opaque value.
#[verifier::external_type_specification]
#[verifier::external_body]
pub struct ExSerializeError(toml::ser::Error);

/// The table could not be turned into a document.
#[derive(Debug)]
pub struct SerializeError {
    /// What the serializer said.
    pub message: String,
}

/// The text that the TOML serializer writes, in its pretty form, for the
/// document with the one key `key` whose value is an array with one table
/// per row, the table of a row holding `names[j] = row[j]` in the order of
/// `names` (a name that occurs twice keeps its first place and its later
/// cell); `None` where the serializer refuses the document.
pub uninterp spec fn toml_text(
    key: Seq<char>,
    names: Seq<Seq<char>>,
    rows: Seq<Seq<Seq<char>>>,
) -> Option<Seq<char>>;

/// The cells of all rows.
pub open spec fn grid(rows: Seq<Vec<String>>) -> Seq<Seq<Seq<char>>> {
    Seq::new(rows.len(), |i: int| texts(rows[i]@))
}

/// Whether every row has one cell per name.
pub open spec fn rectangular(names: Seq<String>, rows: Seq<Vec<String>>) -> bool {
    forall|i: int| 0 <= i < rows.len() ==> (#[trigger] rows[i]).len() == names.len()
}

/// Calls `toml::to_string_pretty` on a `toml::Table` with the one key `key`,
/// whose value is the array of the rows as tables, entries inserted in the
/// order of `names`. Trusted: the text is a function of the key, the names
/// and the cells alone, since the table type keeps insertion order; nothing
/// else is claimed of it.
#[verifier::external_body]
fn toml_document(key: &str, names: &Vec<String>, rows: &Vec<Vec<String>>) -> (r: Result<
    String,
    toml::ser::Error,
>)
    requires
        rectangular(names@, rows@),
    ensures
        match r {
            Ok(text) => toml_text(key@, texts(names@), grid(rows@)) == Some(text@),
            Err(_) => toml_text(key@, texts(names@), grid(rows@)) is None,
        },
{
    let mut tables = Vec::new();
    for cells in rows {
        let values = cells.iter().cloned().map(toml::Value::String);
        tables.push(toml::Value::Table(names.iter().cloned().zip(values).collect()));
    }
    let mut document = toml::Table::new();
    document.insert(key.to_string(), toml::Value::Array(tables));
    toml::to_string_pretty(&document)
}

/// Calls the `Display` impl of `toml::ser::Error`. Trusted, and nothing is
/// claimed of the text.
#[verifier::external_body]
fn error_text(e: &toml::ser::Error) -> (r: String) {
    e.to_string()
}

/// What the sink hands on for a serializer's answer: the text as it is, or
/// the serializer's error as the library's own.
pub fn settle(answer: Result<String, toml::ser::Error>) -> (r: Result<String, SerializeError>)
    ensures
        match answer {
            Ok(text) => r == Ok::<String, SerializeError>(text),
            Err(_) => r is Err,
        },
{
    match answer {
        Ok(text) => Ok(text),
        Err(e) => Err(SerializeError { message: error_text(&e) }),
    }
}

/// The TOML document of `table`: all rows, in order, under the key `symbol`,
/// each row with its cells in header order.
pub fn table_document(table: &Tsv) -> (r: Result<String, SerializeError>)
    requires
        table.wf(),
    ensures
        match r {
            Ok(text) => toml_text("symbol"@, table.header_texts(), grid(table.rows@)) == Some(
                text@,
            ),
            Err(_) => toml_text("symbol"@, table.header_texts(), grid(table.rows@)) is None,
        },
{
    settle(toml_document("symbol", &table.headers, &table.rows))
}

} // verus!
