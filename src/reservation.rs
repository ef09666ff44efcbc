//! Reconciliation of a check-in sheet: which rows are still unregistered, and
//! how a fetched row becomes a validated guest.
use vstd::prelude::*;
use vstd::string::*;
use crate::guest::Guest;
use crate::text::{contains, contains_spec, decimal, decimal_spec, prefix_chars, prefix_spec, string_views, trim_quotes, trim_quotes_spec};

verus! {

/// Sheet row (1-based) of the first guest; row 1 holds the headers.
pub const FIRST_DATA_ROW: u32 = 2;

/// Position of each field among a guest row's cells.
pub const COL_TIMESTAMP: usize = 0;
pub const COL_PURPOSE_OF_STAY: usize = 1;
pub const COL_CHECK_IN: usize = 2;
pub const COL_CHECK_OUT: usize = 3;
pub const COL_SURNAME: usize = 4;
pub const COL_FIRST_NAME: usize = 5;
pub const COL_BIRTH_DATE: usize = 6;
pub const COL_COUNTRY_OF_CITIZENSHIP: usize = 7;
pub const COL_TRAVEL_DOC_NUMBER: usize = 8;
pub const COL_VISA_NUMBER: usize = 9;
pub const COL_ADDRESS_ABROAD: usize = 10;
pub const COL_FULL_NAME: usize = 11;

/// Fixed widths that purpose of stay and country of citizenship are cut to.
pub const PURPOSE_OF_STAY_WIDTH: usize = 2;
pub const COUNTRY_WIDTH: usize = 3;

/// What `str::to_lowercase` returns for `s`.
pub uninterp spec fn lower_of(s: Seq<char>) -> Seq<char>;

/// Relies on `str::to_lowercase`: the result depends on the characters alone.
#[verifier::external_body]
fn lowercase(s: &str) -> (r: String)
    ensures
        r@ == lower_of(s@),
{
    s.to_lowercase()
}

/// A marker cell means "not yet registered": it is absent, or its lowercased
/// text contains `false`.
pub open spec fn unregistered_marker(cell: Option<Seq<char>>) -> bool {
    match cell {
        None => true,
        Some(t) => contains_spec(lower_of(t), "false"@),
    }
}

/// The view of a marker cell.
pub open spec fn cell_view(cell: Option<String>) -> Option<Seq<char>> {
    match cell {
        Some(s) => Some(s@),
        None => None,
    }
}

/// The sheet rows, in ascending order, whose marker cell means unregistered;
/// the first cell belongs to the first data row.
pub open spec fn unregistered_rows_spec(cells: Seq<Option<Seq<char>>>) -> Seq<u32>
    decreases cells.len(),
{
    if cells.len() == 0 {
        Seq::empty()
    } else {
        let rest = unregistered_rows_spec(cells.drop_last());
        if unregistered_marker(cells.last()) {
            rest.push((cells.len() - 1 + FIRST_DATA_ROW) as u32)
        } else {
            rest
        }
    }
}

/// The field in column `i` of a row: the cell without quoting artifacts, or
/// empty when the row stops before that column.
pub open spec fn cell_text(cells: Seq<Seq<char>>, i: int) -> Seq<char> {
    if 0 <= i < cells.len() {
        trim_quotes_spec(cells[i])
    } else {
        Seq::empty()
    }
}

/// `g` is the validated guest of sheet row `row` whose cells are `cells`.
pub open spec fn built_from(g: Guest, row: u32, cells: Seq<Seq<char>>) -> bool {
    &&& g.row@ == decimal_spec(row as nat)
    &&& g.timestamp@ == cell_text(cells, COL_TIMESTAMP as int)
    &&& g.purpose_of_stay@ == prefix_spec(cell_text(cells, COL_PURPOSE_OF_STAY as int), PURPOSE_OF_STAY_WIDTH as nat)
    &&& g.check_in@ == cell_text(cells, COL_CHECK_IN as int)
    &&& g.check_out@ == cell_text(cells, COL_CHECK_OUT as int)
    &&& g.surname@ == cell_text(cells, COL_SURNAME as int)
    &&& g.first_name@ == cell_text(cells, COL_FIRST_NAME as int)
    &&& g.birth_date@ == cell_text(cells, COL_BIRTH_DATE as int)
    &&& g.country_of_citizenship@ == prefix_spec(cell_text(cells, COL_COUNTRY_OF_CITIZENSHIP as int), COUNTRY_WIDTH as nat)
    &&& g.travel_doc_number@ == cell_text(cells, COL_TRAVEL_DOC_NUMBER as int)
    &&& g.visa_number@ == cell_text(cells, COL_VISA_NUMBER as int)
    &&& g.address_abroad@ == cell_text(cells, COL_ADDRESS_ABROAD as int)
    &&& g.full_name@ == cell_text(cells, COL_FULL_NAME as int)
    &&& g.wf()
}

/// Whether a marker cell means that the guest is not registered yet.
pub fn is_unregistered_marker(cell: &Option<String>) -> (r: bool)
    ensures
        r == unregistered_marker(cell_view(*cell)),
{
    match cell {
        None => true,
        Some(t) => {
            let lower = lowercase(t.as_str());
            contains(lower.as_str(), "false")
        },
    }
}

/// The sheet rows whose marker cell means unregistered, in ascending order.
/// `cells[i]` is the marker cell of sheet row `i + 2`.
pub fn get_unregistered_guests(cells: &Vec<Option<String>>) -> (r: Vec<u32>)
    requires
        cells@.len() + FIRST_DATA_ROW <= u32::MAX,
    ensures
        r@ == unregistered_rows_spec(cells@.map_values(|c: Option<String>| cell_view(c))),
{
    let ghost views = cells@.map_values(|c: Option<String>| cell_view(c));
    let mut rows: Vec<u32> = Vec::new();
    let mut i: usize = 0;
    assert(views.take(0) =~= Seq::<Option<Seq<char>>>::empty());
    while i < cells.len()
        invariant
            i <= cells@.len(),
            cells@.len() + FIRST_DATA_ROW <= u32::MAX,
            views == cells@.map_values(|c: Option<String>| cell_view(c)),
            rows@ == unregistered_rows_spec(views.take(i as int)),
        decreases cells@.len() - i,
    {
        assert(views.take(i + 1).drop_last() =~= views.take(i as int));
        assert(views.take(i + 1).last() == cell_view(cells@[i as int]));
        if is_unregistered_marker(&cells[i]) {
            rows.push(i as u32 + FIRST_DATA_ROW);
        }
        i = i + 1;
    }
    assert(views.take(i as int) =~= views);
    rows
}

/// The field in column `i`, or an empty string when the row stops before it.
fn cell_at(cells: &Vec<String>, i: usize) -> (r: String)
    ensures
        r@ == cell_text(string_views(cells@), i as int),
{
    if i < cells.len() {
        trim_quotes(cells[i].as_str())
    } else {
        String::new()
    }
}

/// The validated guest of sheet row `row`, read from its cells in the fixed
/// column order. Cells past the twelfth are ignored; missing trailing cells
/// read as empty, so a missing required field shows up as that field's error.
pub fn guest_from_row(row: u32, cells: &Vec<String>) -> (r: Guest)
    ensures
        built_from(r, row, string_views(cells@)),
{
    let purpose = cell_at(cells, COL_PURPOSE_OF_STAY);
    let country = cell_at(cells, COL_COUNTRY_OF_CITIZENSHIP);
    Guest::new(
        &decimal(row),
        cell_at(cells, COL_TIMESTAMP),
        prefix_chars(purpose.as_str(), PURPOSE_OF_STAY_WIDTH),
        cell_at(cells, COL_CHECK_IN),
        cell_at(cells, COL_CHECK_OUT),
        cell_at(cells, COL_SURNAME),
        cell_at(cells, COL_FIRST_NAME),
        cell_at(cells, COL_BIRTH_DATE),
        prefix_chars(country.as_str(), COUNTRY_WIDTH),
        cell_at(cells, COL_TRAVEL_DOC_NUMBER),
        cell_at(cells, COL_VISA_NUMBER),
        cell_at(cells, COL_ADDRESS_ABROAD),
        cell_at(cells, COL_FULL_NAME),
    )
}

/// One validated guest per fetched row, in the order given; `rows[i]` is the
/// sheet row whose cells are `row_cells[i]`.
pub fn guests_from_rows(rows: &Vec<u32>, row_cells: &Vec<Vec<String>>) -> (r: Vec<Guest>)
    requires
        rows@.len() == row_cells@.len(),
    ensures
        r@.len() == rows@.len(),
        forall|i: int| 0 <= i < r@.len() ==> built_from(#[trigger] r@[i], rows@[i], string_views(row_cells@[i]@)),
{
    let mut guests: Vec<Guest> = Vec::new();
    let mut i: usize = 0;
    while i < rows.len()
        invariant
            i <= rows@.len(),
            rows@.len() == row_cells@.len(),
            guests@.len() == i,
            forall|k: int| 0 <= k < i ==> built_from(#[trigger] guests@[k], rows@[k], string_views(row_cells@[k]@)),
        decreases rows@.len() - i,
    {
        let g = guest_from_row(rows[i], &row_cells[i]);
        guests.push(g);
        i = i + 1;
    }
    guests
}

/// The sheet that holds one listing's check-in responses.
pub struct Reservation {
    pub spreadsheet_id: String,
    pub sheet_name: String,
}

impl Reservation {
    pub fn new(spreadsheet_id: &str, sheet_name: &str) -> (r: Self)
        ensures
            r.spreadsheet_id@ == spreadsheet_id@,
            r.sheet_name@ == sheet_name@,
    {
        Reservation { spreadsheet_id: String::from_str(spreadsheet_id), sheet_name: String::from_str(sheet_name) }
    }

    /// The range of marker cells below the header row: `{sheet}!M2:M`.
    pub fn marker_column_range(&self) -> (r: String)
        ensures
            r@ == self.sheet_name@ + "!M2:M"@,
    {
        let mut r = self.sheet_name.clone();
        r.append("!M2:M");
        r
    }

    /// The range of one whole sheet row: `{sheet}!{row}:{row}`.
    pub fn row_range(&self, row: u32) -> (r: String)
        ensures
            r@ == self.sheet_name@ + "!"@ + decimal_spec(row as nat) + ":"@ + decimal_spec(row as nat),
    {
        let mut r = self.sheet_name.clone();
        r.append("!");
        let n = decimal(row);
        r.append(n.as_str());
        r.append(":");
        r.append(n.as_str());
        r
    }

    /// The marker cell of one sheet row: `{sheet}!M{row}`.
    pub fn marker_cell_range(&self, row: &str) -> (r: String)
        ensures
            r@ == self.sheet_name@ + "!M"@ + row@,
    {
        let mut r = self.sheet_name.clone();
        r.append("!M");
        r.append(row);
        r
    }

    /// The text written into a marker cell once its guest is registered.
    pub fn registered_value() -> (r: String)
        ensures
            r@ == "TRUE"@,
    {
        String::from_str("TRUE")
    }
}

} // verus!
