//! The symbol extractor: from the cells of the symbol column to normalized
//! ticker symbols, in row order.

use crate::error::MalformedInput;
use crate::table::{first_match, has_column, lemma_row_keys, Tsv};
use crate::text::{
    alphanumeric, chars_of, is_alphanumeric, string_of, texts, to_uppercase, trim, trim_bounds,
    uppercase,
};
use vstd::prelude::*;

verus! {

/// A raw cell, trimmed and upper-cased.
pub open spec fn normalized(raw: Seq<char>) -> Seq<char> {
    uppercase(trim(raw))
}

/// Whether `s` consists of alphanumeric characters only.
pub open spec fn is_symbol(s: Seq<char>) -> bool {
    forall|i: int| 0 <= i < s.len() ==> alphanumeric(#[trigger] s[i])
}

/// The symbols that a column of raw cells yields: the normalized form of
/// each cell whose normalized form is a symbol, in order.
pub open spec fn emitted(cells: Seq<Seq<char>>) -> Seq<Seq<char>>
    decreases cells.len(),
{
    if cells.len() == 0 {
        Seq::empty()
    } else if is_symbol(normalized(cells.last())) {
        emitted(cells.drop_last()).push(normalized(cells.last()))
    } else {
        emitted(cells.drop_last())
    }
}

/// The raw cells that yield no symbol, in order.
pub open spec fn rejected(cells: Seq<Seq<char>>) -> Seq<Seq<char>>
    decreases cells.len(),
{
    if cells.len() == 0 {
        Seq::empty()
    } else if is_symbol(normalized(cells.last())) {
        rejected(cells.drop_last())
    } else {
        rejected(cells.drop_last()).push(cells.last())
    }
}

/// The cells of all rows of `table` under the header `name`, in row order.
pub open spec fn column(table: Tsv, name: Seq<char>) -> Seq<Seq<char>> {
    Seq::new(table.rows.len() as nat, |i: int| table.row(i)[name])
}

/// Nothing but symbols is ever emitted, and every cell is either emitted or
/// rejected: a cell whose normalized form holds a character that is not
/// alphanumeric never reaches the emitted sequence.
pub proof fn lemma_only_symbols_emitted(cells: Seq<Seq<char>>)
    ensures
        forall|i: int| 0 <= i < emitted(cells).len() ==> is_symbol(#[trigger] emitted(cells)[i]),
        emitted(cells).len() + rejected(cells).len() == cells.len(),
    decreases cells.len(),
{
    if cells.len() > 0 {
        lemma_only_symbols_emitted(cells.drop_last());
    }
}

/// A cell whose normalized form is not a symbol adds nothing to what is
/// emitted, whatever came before it.
pub proof fn lemma_non_symbol_omitted(cells: Seq<Seq<char>>, raw: Seq<char>)
    requires
        !is_symbol(normalized(raw)),
    ensures
        emitted(cells.push(raw)) == emitted(cells),
        rejected(cells.push(raw)) == rejected(cells).push(raw),
{
    assert(cells.push(raw).drop_last() =~= cells);
}

/// Whether `s` consists of alphanumeric characters only.
pub fn all_alphanumeric(s: &str) -> (r: bool)
    ensures
        r == is_symbol(s@),
{
    let v = chars_of(s);
    let mut i: usize = 0;
    while i < v.len()
        invariant
            i <= v.len(),
            v@ == s@,
            forall|j: int| 0 <= j < i ==> alphanumeric(#[trigger] s@[j]),
        decreases v.len() - i,
    {
        if !is_alphanumeric(v[i]) {
            return false;
        }
        i += 1;
    }
    true
}

/// The symbol that a raw cell stands for: the cell trimmed and upper-cased,
/// if that consists of alphanumeric characters only.
pub fn normalize_symbol(raw: &str) -> (r: Option<String>)
    ensures
        match r {
            Some(symbol) => symbol@ == normalized(raw@) && is_symbol(symbol@),
            None => !is_symbol(normalized(raw@)),
        },
{
    let v = chars_of(raw);
    let (lo, hi) = trim_bounds(&v, 0, v.len());
    assert(v@.subrange(0, v.len() as int) =~= v@);
    let trimmed = string_of(&v, lo, hi);
    let symbol = to_uppercase(trimmed.as_str());
    if all_alphanumeric(symbol.as_str()) {
        Some(symbol)
    } else {
        None
    }
}

/// What the extractor made of a table: the symbols to fetch, and the raw
/// cells it skipped, each in row order.
#[derive(Debug)]
pub struct Extraction {
    /// The index of the column that was read.
    pub column: usize,
    pub symbols: Vec<String>,
    pub skipped: Vec<String>,
}

/// Extracts the symbols of `table` from the column with index `index`.
pub fn extract_symbols(table: &Tsv, index: usize) -> (r: Extraction)
    requires
        table.wf(),
        index < table.headers.len(),
    ensures
        r.column == index,
        texts(r.symbols@) == emitted(column(*table, table.headers[index as int]@)),
        texts(r.skipped@) == rejected(column(*table, table.headers[index as int]@)),
        forall|i: int| 0 <= i < r.symbols.len() ==> is_symbol((#[trigger] r.symbols[i])@),
        r.symbols.len() + r.skipped.len() == table.rows.len(),
{
    let name = table.headers[index].as_str();
    let ghost cells = column(*table, name@);
    let mut symbols: Vec<String> = Vec::new();
    let mut skipped: Vec<String> = Vec::new();
    let mut i: usize = 0;
    while i < table.rows.len()
        invariant
            i <= table.rows.len(),
            table.wf(),
            index < table.headers.len(),
            name@ == table.headers[index as int]@,
            cells == column(*table, name@),
            texts(symbols@) == emitted(cells.take(i as int)),
            texts(skipped@) == rejected(cells.take(i as int)),
        decreases table.rows.len() - i,
    {
        proof {
            lemma_row_keys(table.header_texts(), table.row_texts(i as int));
            assert(table.header_texts()[index as int] == name@);
            assert(table.header_texts().to_set().contains(name@));
            assert(cells.take(i as int + 1).drop_last() =~= cells.take(i as int));
        }
        let ghost before_symbols = texts(symbols@);
        let ghost before_skipped = texts(skipped@);
        match table.get(i, name) {
            Some(cell) => {
                match normalize_symbol(cell.as_str()) {
                    Some(symbol) => {
                        symbols.push(symbol);
                        assert(texts(symbols@) =~= before_symbols.push(normalized(cell@)));
                    },
                    None => {
                        skipped.push(cell.clone());
                        assert(texts(skipped@) =~= before_skipped.push(cell@));
                    },
                }
            },
            None => {},
        }
        i += 1;
    }
    proof {
        assert(cells.take(table.rows.len() as int) =~= cells);
        lemma_only_symbols_emitted(cells);
        assert forall|i: int| 0 <= i < symbols.len() implies is_symbol((#[trigger] symbols[i])@) by {
            assert(symbols[i]@ == texts(symbols@)[i]);
        }
    }
    Extraction { column: index, symbols, skipped }
}

/// Whether `e` is what the extractor makes of `table`: the symbols and the
/// skipped cells of the first column whose header is `symbol` in any case.
pub open spec fn extracted_from(e: Extraction, table: Tsv) -> bool {
    &&& first_match(table, "symbol"@, e.column as int)
    &&& texts(e.symbols@) == emitted(column(table, table.headers[e.column as int]@))
    &&& texts(e.skipped@) == rejected(column(table, table.headers[e.column as int]@))
    &&& forall|i: int| 0 <= i < e.symbols.len() ==> is_symbol((#[trigger] e.symbols[i])@)
}

/// The symbols of `table`, from the first column whose header is `symbol`
/// in any case. Without such a column there is nothing to fetch: the result
/// is an error and holds no symbol.
pub fn symbol_list(table: &Tsv) -> (r: Result<Extraction, MalformedInput>)
    requires
        table.wf(),
    ensures
        r is Ok <==> has_column(*table, "symbol"@),
        match r {
            Ok(e) => extracted_from(e, *table),
            Err(err) => err == MalformedInput::MissingSymbolColumn && !has_column(
                *table,
                "symbol"@,
            ),
        },
{
    match table.find_header_index_case_insensitive("symbol") {
        Some(index) => Ok(extract_symbols(table, index)),
        None => Err(MalformedInput::MissingSymbolColumn),
    }
}

} // verus!
