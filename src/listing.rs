//! A rental listing: its name, its export header and the sheet of its guests.
use vstd::prelude::*;
use vstd::string::*;
use crate::reservation::Reservation;
use crate::text::{replace_all, replace_spec};

verus! {

/// A listing. `a_record` is the export header with its `AddDate`
/// placeholder already filled in.
pub struct Listing {
    pub id: String,
    pub name: String,
    pub address: String,
    pub reservation: Reservation,
    pub a_record: String,
}

impl Listing {
    /// Builds a listing; `now_text` is the current date-time, as it should
    /// appear in the header, that replaces each `AddDate` in `a_record`.
    pub fn new(
        id: &str,
        name: &str,
        address: &str,
        spreadsheet_id: &str,
        sheet_name: &str,
        a_record: &str,
        now_text: &str,
    ) -> (r: Self)
        ensures
            r.id@ == id@,
            r.name@ == name@,
            r.address@ == address@,
            r.reservation.spreadsheet_id@ == spreadsheet_id@,
            r.reservation.sheet_name@ == sheet_name@,
            r.a_record@ == replace_spec(a_record@, "AddDate"@, now_text@),
    {
        Listing {
            id: String::from_str(id),
            name: String::from_str(name),
            address: String::from_str(address),
            reservation: Reservation::new(spreadsheet_id, sheet_name),
            a_record: Self::add_datetime(a_record, now_text),
        }
    }

    pub fn get_name(&self) -> (r: &str)
        ensures
            r@ == self.name@,
    {
        self.name.as_str()
    }

    pub fn get_a_record(&self) -> (r: &str)
        ensures
            r@ == self.a_record@,
    {
        self.a_record.as_str()
    }

    /// The header with every `AddDate` replaced by `now_text`.
    pub fn add_datetime(a_record: &str, now_text: &str) -> (r: String)
        ensures
            r@ == replace_spec(a_record@, "AddDate"@, now_text@),
    {
        proof {
            reveal_strlit("AddDate");
        }
        replace_all(a_record, "AddDate", now_text)
    }
}

} // verus!
