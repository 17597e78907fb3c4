//! The tabular parser: tab-delimited text to a header list and an ordered
//! sequence of rows.

use crate::error::MalformedInput;
use crate::text::{
    chars_of, line_bounds, lines, lowercase, pieces, ranges_within, split, split_bounds,
    string_of, texts, to_lowercase, trim, trim_bounds,
};
use vstd::prelude::*;

verus! {

/// The fields of one line: the pieces between tabs, each trimmed.
pub open spec fn fields(line: Seq<char>) -> Seq<Seq<char>> {
    let raw = split(line, '\t');
    Seq::new(raw.len(), |i: int| trim(raw[i]))
}

/// Whether line `k` of `s` has as many fields as the header line.
pub open spec fn row_fits(s: Seq<char>, k: int) -> bool {
    fields(lines(s)[k]).len() == fields(lines(s)[0]).len()
}

/// Whether `s` holds a table: a header line, and data lines that each have
/// as many fields as the header line.
pub open spec fn accepted(s: Seq<char>) -> bool {
    &&& lines(s).len() > 0
    &&& forall|k: int| 1 <= k < lines(s).len() ==> row_fits(s, k)
}

/// Whether `e` is the error of `s`: that it has no line, or the number
/// of its first data line whose field count differs from the header line's.
pub open spec fn rejected_with(s: Seq<char>, e: MalformedInput) -> bool {
    match e {
        MalformedInput::NoHeaderLine => lines(s).len() == 0,
        MalformedInput::FieldCount { line } => {
            &&& 1 < line <= lines(s).len()
            &&& !row_fits(s, line - 1)
            &&& forall|k: int| 1 <= k < line - 1 ==> row_fits(s, k)
        },
        MalformedInput::MissingSymbolColumn => false,
    }
}

/// A text is accepted or rejected, never both, and rejected with one error
/// only.
pub proof fn lemma_accepted_or_rejected(s: Seq<char>, e: MalformedInput, f: MalformedInput)
    requires
        rejected_with(s, e),
    ensures
        !accepted(s),
        rejected_with(s, f) ==> e == f,
{
    if let MalformedInput::FieldCount { line } = e {
        assert(!row_fits(s, line - 1));
        if let MalformedInput::FieldCount { line: other } = f {
            if rejected_with(s, f) && other != line {
                if other < line {
                    assert(row_fits(s, other - 1));
                } else {
                    assert(row_fits(s, line - 1));
                }
            }
        }
    }
}

/// The mapping from header name to cell that a row stands for. Where a name
/// occurs twice among the headers, the later cell is the one it maps to.
pub open spec fn row_map(names: Seq<Seq<char>>, cells: Seq<Seq<char>>) -> Map<
    Seq<char>,
    Seq<char>,
>
    decreases names.len(),
{
    if names.len() == 0 || cells.len() == 0 {
        Map::empty()
    } else {
        row_map(names.drop_last(), cells.drop_last()).insert(names.last(), cells.last())
    }
}

/// The keys of a row are exactly the header names.
pub proof fn lemma_row_keys(names: Seq<Seq<char>>, cells: Seq<Seq<char>>)
    requires
        names.len() == cells.len(),
    ensures
        row_map(names, cells).dom() =~= names.to_set(),
    decreases names.len(),
{
    if names.len() > 0 {
        lemma_row_keys(names.drop_last(), cells.drop_last());
        let m = row_map(names, cells);
        assert forall|x: Seq<char>| m.dom().contains(x) <==> names.to_set().contains(x) by {
            if names.drop_last().contains(x) {
                let i = choose|i: int| 0 <= i < names.len() - 1 && names.drop_last()[i] == x;
                assert(names[i] == x);
            }
            if names.contains(x) {
                let i = choose|i: int| 0 <= i < names.len() && names[i] == x;
                if i < names.len() - 1 {
                    assert(names.drop_last()[i] == x);
                }
            }
        }
    }
}

/// A parsed table. `rows[i][j]` is the cell of row `i` under `headers[j]`.
#[derive(Debug)]
pub struct Tsv {
    pub headers: Vec<String>,
    pub rows: Vec<Vec<String>>,
}

impl Tsv {
    /// The header names.
    pub open spec fn header_texts(&self) -> Seq<Seq<char>> {
        texts(self.headers@)
    }

    /// The cells of row `i`, in header order.
    pub open spec fn row_texts(&self, i: int) -> Seq<Seq<char>> {
        texts(self.rows@[i]@)
    }

    /// Row `i` as a mapping from header name to cell.
    pub open spec fn row(&self, i: int) -> Map<Seq<char>, Seq<char>> {
        row_map(self.header_texts(), self.row_texts(i))
    }

    /// Every row has one cell per header.
    pub open spec fn wf(&self) -> bool {
        forall|i: int| 0 <= i < self.rows.len() ==> (#[trigger] self.rows[i]).len() == self.headers.len()
    }

    /// Whether `self` is the table that `s` holds: the fields of the first
    /// line as headers, and one row for each further line, in order, with
    /// that line's fields as cells and the header set as keys.
    pub open spec fn parsed_from(&self, s: Seq<char>) -> bool {
        &&& self.wf()
        &&& accepted(s)
        &&& self.header_texts() == fields(lines(s)[0])
        &&& self.rows.len() == lines(s).len() - 1
        &&& forall|k: int|
            0 <= k < self.rows.len() ==> #[trigger] self.row_texts(k) == fields(lines(s)[k + 1])
        &&& forall|k: int|
            0 <= k < self.rows.len() ==> (#[trigger] self.row(k)).dom()
                == self.header_texts().to_set()
    }

    /// Parses tab-delimited text whose first line is the header line.
    pub fn from_str(s: &str) -> (r: Result<Tsv, MalformedInput>)
        ensures
            r is Ok <==> accepted(s@),
            match r {
                Ok(t) => t.parsed_from(s@),
                Err(e) => rejected_with(s@, e),
            },
    {
        let chars = chars_of(s);
        let bounds = line_bounds(&chars);
        if bounds.len() == 0 {
            return Err(MalformedInput::NoHeaderLine);
        }
        let (a, b) = bounds[0];
        assert(pieces(chars@, bounds@)[0] == chars@.subrange(a as int, b as int));
        let headers = fields_of(&chars, a, b);
        let mut rows: Vec<Vec<String>> = Vec::new();
        let mut k: usize = 1;
        while k < bounds.len()
            invariant
                1 <= k <= bounds.len(),
                chars@ == s@,
                ranges_within(bounds@, chars.len() as int),
                pieces(chars@, bounds@) == lines(s@),
                texts(headers@) == fields(lines(s@)[0]),
                rows.len() == k - 1,
                forall|j: int|
                    0 <= j < rows.len() ==> texts((#[trigger] rows[j])@) == fields(
                        lines(s@)[j + 1],
                    ),
                forall|j: int| 0 <= j < rows.len() ==> (#[trigger] rows[j]).len() == headers.len(),
            decreases bounds.len() - k,
        {
            let (a, b) = bounds[k];
            assert(pieces(chars@, bounds@)[k as int] == chars@.subrange(a as int, b as int));
            let row = fields_of(&chars, a, b);
            if row.len() != headers.len() {
                assert forall|j: int| 1 <= j < k implies row_fits(s@, j) by {
                    assert(texts(rows[j - 1]@) == fields(lines(s@)[j]));
                }
                assert(!row_fits(s@, k as int));
                return Err(MalformedInput::FieldCount { line: k + 1 });
            }
            rows.push(row);
            k += 1;
        }
        let t = Tsv { headers, rows };
        proof {
            assert forall|j: int| 1 <= j < lines(s@).len() implies row_fits(s@, j) by {
                assert(texts(t.rows[j - 1]@) == fields(lines(s@)[j]));
            }
            assert forall|j: int| 0 <= j < t.rows.len() implies (#[trigger] t.row(j)).dom()
                == t.header_texts().to_set() by {
                lemma_row_keys(t.header_texts(), t.row_texts(j));
            }
        }
        Ok(t)
    }

    /// The index of the first header that equals `name` when case is ignored.
    pub fn find_header_index_case_insensitive(&self, name: &str) -> (r: Option<usize>)
        ensures
            match r {
                Some(i) => first_match(*self, name@, i as int),
                None => !has_column(*self, name@),
            },
    {
        let wanted = to_lowercase(name);
        let mut i: usize = 0;
        while i < self.headers.len()
            invariant
                i <= self.headers.len(),
                wanted@ == lowercase(name@),
                forall|j: int|
                    0 <= j < i ==> lowercase((#[trigger] self.headers[j])@) != lowercase(name@),
            decreases self.headers.len() - i,
        {
            let lowered = to_lowercase(self.headers[i].as_str());
            if lowered == wanted {
                return Some(i);
            }
            i += 1;
        }
        None
    }

    /// The cell of row `row` under the header `name`, if there is such a header.
    pub fn get(&self, row: usize, name: &str) -> (r: Option<&String>)
        requires
            self.wf(),
            row < self.rows.len(),
        ensures
            match r {
                Some(cell) => self.row(row as int).contains_key(name@) && self.row(
                    row as int,
                )[name@] == cell@,
                None => !self.row(row as int).contains_key(name@),
            },
    {
        let wanted = name.to_owned();
        let cells = &self.rows[row];
        let mut j: usize = self.headers.len();
        assert(self.header_texts() =~= self.header_texts().take(self.headers.len() as int));
        assert(self.row_texts(row as int) =~= self.row_texts(row as int).take(
            self.headers.len() as int,
        ));
        while j > 0
            invariant
                row < self.rows.len(),
                j <= self.headers.len(),
                cells.len() == self.headers.len(),
                cells@ == self.rows[row as int]@,
                wanted@ == name@,
                row_map(self.header_texts(), self.row_texts(row as int)).contains_key(name@)
                    == row_map(
                    self.header_texts().take(j as int),
                    self.row_texts(row as int).take(j as int),
                ).contains_key(name@),
                row_map(self.header_texts(), self.row_texts(row as int)).contains_key(name@)
                    ==> row_map(self.header_texts(), self.row_texts(row as int))[name@] == row_map(
                    self.header_texts().take(j as int),
                    self.row_texts(row as int).take(j as int),
                )[name@],
            decreases j,
        {
            let ghost names = self.header_texts().take(j as int);
            let ghost vals = self.row_texts(row as int).take(j as int);
            assert(names.drop_last() =~= self.header_texts().take(j as int - 1));
            assert(vals.drop_last() =~= self.row_texts(row as int).take(j as int - 1));
            assert(names.last() == self.headers[j as int - 1]@);
            assert(vals.last() == cells[j as int - 1]@);
            j -= 1;
            if self.headers[j] == wanted {
                return Some(&cells[j]);
            }
        }
        None
    }
}

/// Whether header `j` of `table` is the first that equals `name` when case
/// is ignored.
pub open spec fn first_match(table: Tsv, name: Seq<char>, j: int) -> bool {
    &&& 0 <= j < table.headers.len()
    &&& lowercase(table.headers[j]@) == lowercase(name)
    &&& forall|k: int| 0 <= k < j ==> lowercase((#[trigger] table.headers[k])@) != lowercase(name)
}

/// Whether some header of `table` equals `name` when case is ignored.
pub open spec fn has_column(table: Tsv, name: Seq<char>) -> bool {
    exists|j: int|
        0 <= j < table.headers.len() && lowercase((#[trigger] table.headers[j])@) == lowercase(
            name,
        )
}

/// The fields of the line `v[lo..hi]`.
pub fn fields_of(v: &Vec<char>, lo: usize, hi: usize) -> (r: Vec<String>)
    requires
        lo <= hi <= v.len(),
    ensures
        texts(r@) == fields(v@.subrange(lo as int, hi as int)),
{
    let ranges = split_bounds(v, lo, hi, '\t');
    let ghost raw = split(v@.subrange(lo as int, hi as int), '\t');
    let mut r: Vec<String> = Vec::new();
    let mut k: usize = 0;
    while k < ranges.len()
        invariant
            k <= ranges.len(),
            r.len() == k,
            ranges_within(ranges@, v.len() as int),
            pieces(v@, ranges@) == raw,
            forall|j: int| 0 <= j < k ==> (#[trigger] r[j])@ == trim(raw[j]),
        decreases ranges.len() - k,
    {
        let (a, b) = ranges[k];
        assert(pieces(v@, ranges@)[k as int] == v@.subrange(a as int, b as int));
        let (c, e) = trim_bounds(v, a, b);
        let field = string_of(v, c, e);
        r.push(field);
        k += 1;
    }
    assert(texts(r@) =~= fields(v@.subrange(lo as int, hi as int)));
    r
}

} // verus!
