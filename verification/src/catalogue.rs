//! The catalogue loader.
//!
//! The catalogue is a table in CSV form. Its first record is the header,
//! which names the columns; every further record is one row. A row gives an
//! item's number, a link, the item's name and the amount to research, under
//! the column names `id`, `url`, `name` and `amount`. Columns of any other
//! name are passed over.
//!
//! A row that cannot be read stands in the result as an error of its own and
//! keeps no other row from being read.

use crate::numeral::{i32_literal, is_number, parse_i32, parse_i32_hex, reads_as_number};
use crate::research_item::{Amount, AmountView, ResearchItem, ResearchItemView};
use vstd::prelude::*;
use vstd::string::{StrSliceExecFns, StringExecFns};

verus! {

/// Why a row of the catalogue gave no item.
#[derive(Debug, Clone, Copy, PartialEq, Eq)]
pub enum RowError {
    /// The record is no text, or has another number of cells than the first
    /// record of the table.
    Unreadable,
    /// The header does not name each of the four columns exactly once.
    Header,
    /// The row has no cell in one of the four columns.
    Short,
    /// The cell under `id` is no integer.
    Id,
    /// The cell under `amount` reads as a truth value, or as a number that
    /// is no integer or does not fit.
    Amount,
}

/// Where in a row each of the four columns stands.
#[derive(Debug, Clone, Copy, PartialEq, Eq)]
pub struct Columns {
    pub id: usize,
    pub url: usize,
    pub name: usize,
    pub amount: usize,
}

/// The first position at or after `from` at which `header` holds `word`, or
/// the length of `header` if there is none.
pub open spec fn find_from(header: Seq<Seq<char>>, word: Seq<char>, from: int) -> int
    decreases header.len() - from,
{
    if 0 <= from < header.len() && header[from] != word {
        find_from(header, word, from + 1)
    } else {
        from
    }
}

/// The position of `word` in `header`, if it stands there exactly once.
pub open spec fn sole_position(header: Seq<Seq<char>>, word: Seq<char>) -> Option<int> {
    let first = find_from(header, word, 0);
    if first < header.len() && find_from(header, word, first + 1) == header.len() {
        Some(first)
    } else {
        None
    }
}

/// The places of the four columns under a header. A header that could not
/// be read names no column: the first four cells of a row are then taken in
/// the order `id`, `url`, `name`, `amount`. A header that was read has to
/// name each of the four exactly once.
pub open spec fn columns_of(header: Option<Seq<Seq<char>>>) -> Option<Columns> {
    match header {
        None => Some(Columns { id: 0, url: 1, name: 2, amount: 3 }),
        Some(names) => match (
            sole_position(names, "id"@),
            sole_position(names, "url"@),
            sole_position(names, "name"@),
            sole_position(names, "amount"@),
        ) {
            (Some(id), Some(url), Some(name), Some(amount)) => Some(
                Columns {
                    id: id as usize,
                    url: url as usize,
                    name: name as usize,
                    amount: amount as usize,
                },
            ),
            _ => None,
        },
    }
}

/// The item number that a cell holds: a decimal integer literal, or a
/// hexadecimal one after the mark `0x`.
pub open spec fn id_of(cell: Seq<char>) -> Option<i32> {
    if cell.len() >= 2 && cell[0] == '0' && cell[1] == 'x' {
        i32_literal(cell.skip(2), 16)
    } else {
        i32_literal(cell, 10)
    }
}

/// Whether a cell reads as a truth value.
pub open spec fn is_truth_value(cell: Seq<char>) -> bool {
    cell == "true"@ || cell == "false"@
}

/// The amount that a cell holds. An integer literal that fits is a number.
/// Text that reads as nothing else is a remark. What reads as a truth value,
/// or as a number of another kind, is neither.
pub open spec fn amount_of(cell: Seq<char>) -> Option<AmountView> {
    match i32_literal(cell, 10) {
        Some(n) => Some(AmountView::Number(n)),
        None => if is_truth_value(cell) || is_number(cell) {
            None
        } else {
            Some(AmountView::Other(cell))
        },
    }
}

/// The item that a record gives under the given column places, or the
/// reason why it gives none.
pub open spec fn item_of(columns: Option<Columns>, record: Option<Seq<Seq<char>>>) -> Result<
    ResearchItemView,
    RowError,
> {
    match (record, columns) {
        (None, _) => Err(RowError::Unreadable),
        (Some(_), None) => Err(RowError::Header),
        (Some(cells), Some(at)) => if !(at.id < cells.len() && at.url < cells.len() && at.name
            < cells.len() && at.amount < cells.len()) {
            Err(RowError::Short)
        } else {
            match (id_of(cells[at.id as int]), amount_of(cells[at.amount as int])) {
                (None, _) => Err(RowError::Id),
                (Some(_), None) => Err(RowError::Amount),
                (Some(id), Some(amount)) => Ok(
                    ResearchItemView {
                        id,
                        url: cells[at.url as int],
                        name: cells[at.name as int],
                        amount,
                    },
                ),
            }
        },
    }
}

/// The rows of the table whose records are `records`: the first record is
/// the header, and each record after it gives one row.
pub open spec fn catalogue_of(records: Seq<Option<Seq<Seq<char>>>>) -> Seq<
    Result<ResearchItemView, RowError>,
> {
    if records.len() == 0 {
        Seq::empty()
    } else {
        Seq::new(
            (records.len() - 1) as nat,
            |i: int| item_of(columns_of(records[0]), records[i + 1]),
        )
    }
}

/// The model of one row of a loaded catalogue.
pub open spec fn row_view(row: Result<ResearchItem, RowError>) -> Result<
    ResearchItemView,
    RowError,
> {
    match row {
        Ok(item) => Ok(item@),
        Err(e) => Err(e),
    }
}

/// The model of a loaded catalogue.
pub open spec fn rows_view(rows: Seq<Result<ResearchItem, RowError>>) -> Seq<
    Result<ResearchItemView, RowError>,
> {
    Seq::new(rows.len(), |i: int| row_view(rows[i]))
}

/// The records of a table in CSV form, as the `csv` crate reads them with
/// its default settings, the header handed out as the first record: the
/// cells of each record that it reads, and `None` for each record that it
/// reports an error for.
pub uninterp spec fn csv_records(data: Seq<u8>) -> Seq<Option<Seq<Seq<char>>>>;

/// Reads `data` with a `csv::Reader` that hands out the header as the first
/// record, and collects what its `into_records` yields: the cells of each
/// record, or `None` where the reader reports an error. The contract names
/// that result.
#[verifier::external_body]
fn read_records(data: &[u8]) -> (records: Vec<Option<Vec<String>>>)
    ensures
        records.deep_view() == csv_records(data@),
{
    csv::ReaderBuilder::new()
        .has_headers(false)
        .from_reader(data)
        .into_records()
        .map(|record| record.ok().map(|cells| cells.iter().map(String::from).collect()))
        .collect()
}

fn same_text(a: &str, b: &str) -> (yes: bool)
    ensures
        yes == (a@ == b@),
{
    String::from_str(a) == String::from_str(b)
}

fn scan_header(header: &Vec<String>, word: &str, from: usize) -> (at: usize)
    requires
        from <= header.len(),
    ensures
        at == find_from(header.deep_view(), word@, from as int),
        from <= at <= header.len(),
{
    let mut at: usize = from;
    while at < header.len() && !same_text(header[at].as_str(), word)
        invariant
            from <= at <= header.len(),
            find_from(header.deep_view(), word@, from as int) == find_from(
                header.deep_view(),
                word@,
                at as int,
            ),
        decreases header.len() - at,
    {
        at += 1;
    }
    at
}

fn find_column(header: &Vec<String>, word: &str) -> (at: Option<usize>)
    ensures
        match at {
            Some(k) => sole_position(header.deep_view(), word@) == Some(k as int),
            None => sole_position(header.deep_view(), word@) is None,
        },
{
    let first = scan_header(header, word, 0);
    if first < header.len() && scan_header(header, word, first + 1) == header.len() {
        Some(first)
    } else {
        None
    }
}

/// Finds the four columns under a header (see [`columns_of`]).
pub fn locate_columns(header: &Option<Vec<String>>) -> (columns: Option<Columns>)
    ensures
        columns == columns_of(header.deep_view()),
{
    match header {
        None => Some(Columns { id: 0, url: 1, name: 2, amount: 3 }),
        Some(names) => {
            let id = find_column(names, "id");
            let url = find_column(names, "url");
            let name = find_column(names, "name");
            let amount = find_column(names, "amount");
            match (id, url, name, amount) {
                (Some(id), Some(url), Some(name), Some(amount)) => Some(
                    Columns { id, url, name, amount },
                ),
                _ => None,
            }
        },
    }
}

/// Reads the item number in a cell (see [`id_of`]).
pub fn parse_id(cell: &str) -> (id: Option<i32>)
    ensures
        id == id_of(cell@),
{
    let len = cell.unicode_len();
    if len >= 2 && cell.get_char(0) == '0' && cell.get_char(1) == 'x' {
        let digits = cell.substring_char(2, len);
        assert(digits@ =~= cell@.skip(2));
        parse_i32_hex(digits)
    } else {
        parse_i32(cell)
    }
}

/// Reads the amount in a cell (see [`amount_of`]).
pub fn parse_amount(cell: &str) -> (amount: Option<Amount>)
    ensures
        amount matches Some(a) ==> amount_of(cell@) == Some(a@),
        amount is None ==> amount_of(cell@) is None,
{
    match parse_i32(cell) {
        Some(n) => Some(Amount::Number(n)),
        None => {
            if same_text(cell, "true") || same_text(cell, "false") || reads_as_number(cell) {
                None
            } else {
                Some(Amount::Other(String::from_str(cell)))
            }
        },
    }
}

/// Reads one record as a row (see [`item_of`]).
pub fn parse_row(columns: &Option<Columns>, record: &Option<Vec<String>>) -> (row: Result<
    ResearchItem,
    RowError,
>)
    ensures
        row_view(row) == item_of(*columns, record.deep_view()),
{
    let cells = match record {
        None => {
            return Err(RowError::Unreadable);
        },
        Some(cells) => cells,
    };
    let at = match columns {
        None => {
            return Err(RowError::Header);
        },
        Some(at) => at,
    };
    let n = cells.len();
    if !(at.id < n && at.url < n && at.name < n && at.amount < n) {
        return Err(RowError::Short);
    }
    let id = match parse_id(cells[at.id].as_str()) {
        None => {
            return Err(RowError::Id);
        },
        Some(id) => id,
    };
    let amount = match parse_amount(cells[at.amount].as_str()) {
        None => {
            return Err(RowError::Amount);
        },
        Some(amount) => amount,
    };
    Ok(ResearchItem { id, url: cells[at.url].clone(), name: cells[at.name].clone(), amount })
}

/// Reads the records of a table as a catalogue: the first record as the
/// header, each further one as a row (see [`catalogue_of`]).
pub fn parse_records(records: &Vec<Option<Vec<String>>>) -> (rows: Vec<
    Result<ResearchItem, RowError>,
>)
    ensures
        rows_view(rows@) == catalogue_of(records.deep_view()),
{
    let mut rows: Vec<Result<ResearchItem, RowError>> = Vec::new();
    if records.len() == 0 {
        assert(rows_view(rows@) =~= catalogue_of(records.deep_view()));
        return rows;
    }
    let columns = locate_columns(&records[0]);
    let mut i: usize = 1;
    while i < records.len()
        invariant
            1 <= i <= records.len(),
            columns == columns_of(records.deep_view()[0]),
            rows.len() == i - 1,
            forall|k: int|
                0 <= k < rows.len() ==> row_view(#[trigger] rows[k]) == item_of(
                    columns,
                    records.deep_view()[k + 1],
                ),
        decreases records.len() - i,
    {
        let row = parse_row(&columns, &records[i]);
        rows.push(row);
        i += 1;
    }
    assert(rows_view(rows@) =~= catalogue_of(records.deep_view()));
    rows
}

/// Loads the catalogue from a table in CSV form. The `csv` crate splits
/// the table into records; each record after the header becomes one row.
pub fn load_catalogue(data: &[u8]) -> (rows: Vec<Result<ResearchItem, RowError>>)
    ensures
        rows_view(rows@) == catalogue_of(csv_records(data@)),
{
    let records = read_records(data);
    parse_records(&records)
}

} // verus!
