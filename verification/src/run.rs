//! The two stages of a run that come before any asset is fetched, and what
//! ends the run at each. Nothing that happens to a single asset ends a run.

use crate::error::MalformedInput;
use crate::sink::{grid, table_document, toml_text, SerializeError};
use crate::symbol::{extracted_from, symbol_list, Extraction};
use crate::table::{accepted, fields, has_column, rejected_with, Tsv};
use crate::text::lines;
use vstd::prelude::*;

verus! {

/// What ends the whole run.
#[derive(Debug)]
pub enum Fatal {
    /// The upstream table is malformed, or lacks the symbol column.
    Malformed(MalformedInput),
    /// The table could not be turned into a document.
    Serialize(SerializeError),
    /// The document could not be written.
    TableWrite,
}

/// The parsed table and the document to write for it.
#[derive(Debug)]
pub struct Staged {
    pub table: Tsv,
    pub document: String,
}

/// The document of the table that `s` holds, if the serializer gives one.
pub open spec fn document_text(s: Seq<char>) -> Option<Seq<char>> {
    toml_text(
        "symbol"@,
        fields(lines(s)[0]),
        Seq::new((lines(s).len() - 1) as nat, |k: int| fields(lines(s)[k + 1])),
    )
}

/// The first stage: from the upstream text to the table and its document.
/// A malformed text ends the run, and so does a table without a document.
pub fn stage_table(raw: &str) -> (r: Result<Staged, Fatal>)
    ensures
        r is Ok <==> accepted(raw@) && document_text(raw@) is Some,
        match r {
            Ok(staged) => staged.table.parsed_from(raw@) && document_text(raw@) == Some(
                staged.document@,
            ),
            Err(Fatal::Malformed(e)) => rejected_with(raw@, e),
            Err(Fatal::Serialize(_)) => accepted(raw@) && document_text(raw@) is None,
            Err(Fatal::TableWrite) => false,
        },
{
    let table = match Tsv::from_str(raw) {
        Ok(table) => table,
        Err(e) => {
            return Err(Fatal::Malformed(e));
        },
    };
    assert(grid(table.rows@) =~= Seq::new(
        (lines(raw@).len() - 1) as nat,
        |k: int| fields(lines(raw@)[k + 1]),
    )) by {
        assert forall|k: int| 0 <= k < table.rows.len() implies grid(table.rows@)[k] == fields(
            lines(raw@)[k + 1],
        ) by {
            assert(table.row_texts(k) == fields(lines(raw@)[k + 1]));
        }
    }
    match table_document(&table) {
        Ok(document) => Ok(Staged { table, document }),
        Err(e) => Err(Fatal::Serialize(e)),
    }
}

/// The second stage: from the written table to the symbols to fetch. The
/// run ends here, before any asset is fetched, if the document could not be
/// written or the table has no symbol column.
pub fn stage_assets(table: &Tsv, table_written: bool) -> (r: Result<Extraction, Fatal>)
    requires
        table.wf(),
    ensures
        r is Ok <==> table_written && has_column(*table, "symbol"@),
        match r {
            Ok(e) => extracted_from(e, *table),
            Err(Fatal::TableWrite) => !table_written,
            Err(Fatal::Malformed(e)) => table_written && e == MalformedInput::MissingSymbolColumn
                && !has_column(*table, "symbol"@),
            Err(Fatal::Serialize(_)) => false,
        },
{
    if !table_written {
        return Err(Fatal::TableWrite);
    }
    match symbol_list(table) {
        Ok(e) => Ok(e),
        Err(e) => Err(Fatal::Malformed(e)),
    }
}

} // verus!
