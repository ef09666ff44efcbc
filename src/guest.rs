//! One guest's check-in data: its field rules, its error summary and its
//! fixed-width export line.
use vstd::prelude::*;
use vstd::string::*;
use crate::text::{free_of, join, join_spec, lemma_split_join, split, split_spec, string_views, views};

verus! {

/// Whether chrono reads `s` as a calendar date laid out as `%d.%m.%Y`.
pub uninterp spec fn date_parses(s: Seq<char>) -> bool;

/// Relies on chrono's `NaiveDate::parse_from_str` with the format `%d.%m.%Y`:
/// whether it succeeds depends on the text alone.
#[verifier::external_body]
fn is_calendar_date(s: &str) -> (r: bool)
    ensures
        r == date_parses(s@),
{
    chrono::NaiveDate::parse_from_str(s, "%d.%m.%Y").is_ok()
}

/// A field that failed its format rule, named by its display name.
#[derive(Clone, Debug)]
pub enum GuestError {
    InvalidInput(String),
}

impl View for GuestError {
    type V = Seq<char>;

    open spec fn view(&self) -> Seq<char> {
        match self {
            GuestError::InvalidInput(f) => f@,
        }
    }
}

impl GuestError {
    /// The display name of the field that failed.
    pub fn field(&self) -> (r: &str)
        ensures
            r@ == self@,
    {
        match self {
            GuestError::InvalidInput(f) => f.as_str(),
        }
    }

    /// A one-line description of the failure.
    pub fn message(&self) -> (r: String)
        ensures
            r@ == "Invalid input provided for "@ + self@,
    {
        let mut r = String::from_str("Invalid input provided for ");
        r.append(self.field());
        r
    }
}

/// The views of a list of field errors.
pub open spec fn error_views(errs: Seq<GuestError>) -> Seq<Seq<char>> {
    errs.map_values(|e: GuestError| e@)
}

/// What a rule's outcome adds to the error list.
pub open spec fn outcome(r: Result<(), GuestError>) -> Seq<Seq<char>> {
    match r {
        Ok(_) => Seq::empty(),
        Err(e) => seq![e@],
    }
}

/// The error list entry for a rule: nothing when it holds, else the field's name.
pub open spec fn flag(ok: bool, name: Seq<char>) -> Seq<Seq<char>> {
    if ok {
        Seq::empty()
    } else {
        seq![name]
    }
}

/// The character count of `s` lies in `[lo, hi]`.
pub open spec fn within(s: Seq<char>, lo: nat, hi: nat) -> bool {
    lo <= s.len() <= hi
}

/// The error summary for a list of failed field names.
pub open spec fn summary_of(names: Seq<Seq<char>>) -> Seq<char> {
    if names.len() == 0 {
        "No guest input errors found"@
    } else {
        "Input error found in field(s): "@ + join_spec(names, ", "@)
    }
}

/// One row of check-in data. Field values are kept as given; `data_errors`
/// lists the fields that fail their rule, in validation order.
#[derive(Clone, Debug)]
pub struct Guest {
    pub row: String,
    pub timestamp: String,
    pub purpose_of_stay: String,
    pub check_in: String,
    pub check_out: String,
    pub surname: String,
    pub first_name: String,
    pub birth_date: String,
    pub country_of_citizenship: String,
    pub travel_doc_number: String,
    pub visa_number: String,
    pub address_abroad: String,
    pub full_name: String,
    pub data_errors: Vec<GuestError>,
}

impl Guest {
    /// The names of the fields that fail their rule, in validation order.
    pub open spec fn failed_fields(&self) -> Seq<Seq<char>> {
        flag(date_parses(self.check_in@), "check in date"@)
            + flag(date_parses(self.check_out@), "check out date"@)
            + flag(within(self.surname@, 1, 50), "surname"@)
            + flag(within(self.first_name@, 0, 24), "first name"@)
            + flag(date_parses(self.birth_date@), "date of birth"@)
            + flag(self.country_of_citizenship@.len() == 3, "country of citizenship"@)
            + flag(within(self.address_abroad@, 0, 255), "address abroad"@)
            + flag(within(self.travel_doc_number@, 6, 30), "travel doc number"@)
            + flag(within(self.visa_number@, 0, 15), "visa number"@)
            + flag(self.purpose_of_stay@.len() == 2, "purpose of stay"@)
    }

    /// The recorded errors, as field names.
    pub open spec fn errors_view(&self) -> Seq<Seq<char>> {
        error_views(self.data_errors@)
    }

    /// The recorded errors are exactly the failures of the field rules.
    pub open spec fn wf(&self) -> bool {
        self.errors_view() == self.failed_fields()
    }

    /// The slots of the export line, placeholders included.
    pub open spec fn export_fields(&self) -> Seq<Seq<char>> {
        seq![
            seq!['U'],
            self.check_in@,
            self.check_out@,
            self.surname@,
            self.first_name@,
            Seq::empty(),
            self.birth_date@,
            Seq::empty(),
            Seq::empty(),
            self.country_of_citizenship@,
            self.address_abroad@,
            self.travel_doc_number@,
            self.visa_number@,
            self.purpose_of_stay@,
            Seq::empty(),
            Seq::empty(),
        ]
    }

    /// The export line: the slots joined by `|`.
    pub open spec fn u_record(&self) -> Seq<char> {
        join_spec(self.export_fields(), seq!['|'])
    }

    /// Builds a guest from its field values and validates every field.
    pub fn new(
        row: &String,
        timestamp: String,
        purpose_of_stay: String,
        check_in: String,
        check_out: String,
        surname: String,
        first_name: String,
        birth_date: String,
        country_of_citizenship: String,
        travel_doc_number: String,
        visa_number: String,
        address_abroad: String,
        full_name: String,
    ) -> (r: Self)
        ensures
            r.row@ == row@,
            r.timestamp@ == timestamp@,
            r.purpose_of_stay@ == purpose_of_stay@,
            r.check_in@ == check_in@,
            r.check_out@ == check_out@,
            r.surname@ == surname@,
            r.first_name@ == first_name@,
            r.birth_date@ == birth_date@,
            r.country_of_citizenship@ == country_of_citizenship@,
            r.travel_doc_number@ == travel_doc_number@,
            r.visa_number@ == visa_number@,
            r.address_abroad@ == address_abroad@,
            r.full_name@ == full_name@,
            r.wf(),
    {
        let mut guest = Guest {
            row: row.clone(),
            timestamp,
            purpose_of_stay,
            check_in,
            check_out,
            surname,
            first_name,
            birth_date,
            country_of_citizenship,
            travel_doc_number,
            visa_number,
            address_abroad,
            full_name,
            data_errors: Vec::new(),
        };
        assert(guest.errors_view() =~= Seq::empty());
        guest.check_input_format();
        assert(guest.errors_view() =~= guest.failed_fields());
        guest
    }

    /// Runs every field rule and appends each failure to `data_errors`.
    fn check_input_format(&mut self)
        ensures
            final(self).errors_view() == old(self).errors_view() + old(self).failed_fields(),
            final(self).row == old(self).row,
            final(self).timestamp == old(self).timestamp,
            final(self).purpose_of_stay == old(self).purpose_of_stay,
            final(self).check_in == old(self).check_in,
            final(self).check_out == old(self).check_out,
            final(self).surname == old(self).surname,
            final(self).first_name == old(self).first_name,
            final(self).birth_date == old(self).birth_date,
            final(self).country_of_citizenship == old(self).country_of_citizenship,
            final(self).travel_doc_number == old(self).travel_doc_number,
            final(self).visa_number == old(self).visa_number,
            final(self).address_abroad == old(self).address_abroad,
            final(self).full_name == old(self).full_name,
    {
        let mut errs: Vec<GuestError> = Vec::new();
        let r = self.check_format_check_in();
        record(&mut errs, r);
        let r = self.check_format_check_out();
        record(&mut errs, r);
        let r = self.check_format_surname();
        record(&mut errs, r);
        let r = self.check_format_first_name();
        record(&mut errs, r);
        let r = self.check_format_dob();
        record(&mut errs, r);
        let r = self.check_format_country_of_citizenship();
        record(&mut errs, r);
        let r = self.check_format_address_abroad();
        record(&mut errs, r);
        let r = self.check_format_travel_doc_number();
        record(&mut errs, r);
        let r = self.check_format_visa_number();
        record(&mut errs, r);
        let r = self.check_format_purpose_of_stay();
        record(&mut errs, r);
        assert(error_views(errs@) =~= self.failed_fields());
        let ghost before = self.data_errors@;
        self.data_errors.append(&mut errs);
        assert(error_views(self.data_errors@) =~= error_views(before) + self.failed_fields());
    }

    /// Whether the guest passed every field rule.
    pub fn is_valid(&self) -> (r: bool)
        ensures
            r == (self.data_errors@.len() == 0),
    {
        self.data_errors.len() == 0
    }

    /// The fixed pipe-delimited export line of this guest.
    pub fn get_u_record(&self) -> (r: String)
        ensures
            r@ == self.u_record(),
    {
        proof {
            reveal_strlit("U");
            reveal_strlit("");
            reveal_strlit("|");
        }
        let parts: Vec<&str> = vec![
            "U",
            self.check_in.as_str(),
            self.check_out.as_str(),
            self.surname.as_str(),
            self.first_name.as_str(),
            "",
            self.birth_date.as_str(),
            "",
            "",
            self.country_of_citizenship.as_str(),
            self.address_abroad.as_str(),
            self.travel_doc_number.as_str(),
            self.visa_number.as_str(),
            self.purpose_of_stay.as_str(),
            "",
            "",
        ];
        assert("U"@ =~= seq!['U']);
        assert(""@ =~= Seq::<char>::empty());
        assert(parts@.len() == 16);
        assert(views(parts@) =~= self.export_fields());
        assert("|"@ =~= seq!['|']);
        join(&parts, "|")
    }

    /// `"No guest input errors found"`, or the failed field names after
    /// `"Input error found in field(s): "`, separated by `", "`.
    pub fn get_data_errors(&self) -> (r: String)
        ensures
            r@ == summary_of(self.errors_view()),
    {
        if self.data_errors.len() == 0 {
            return String::from_str("No guest input errors found");
        }
        let mut names: Vec<&str> = Vec::new();
        let mut i: usize = 0;
        while i < self.data_errors.len()
            invariant
                i <= self.data_errors@.len(),
                views(names@) == self.errors_view().take(i as int),
            decreases self.data_errors@.len() - i,
        {
            let f = self.data_errors[i].field();
            let ghost old_names = names@;
            names.push(f);
            assert(f@ == self.errors_view()[i as int]);
            assert(views(names@) =~= views(old_names).push(f@));
            assert(self.errors_view().take(i + 1) =~= self.errors_view().take(i as int).push(f@));
            assert(views(names@) =~= self.errors_view().take(i + 1));
            i = i + 1;
        }
        assert(self.errors_view().take(i as int) =~= self.errors_view());
        let mut msg = String::from_str("Input error found in field(s): ");
        let joined = join(&names, ", ");
        msg.append(joined.as_str());
        msg
    }

    pub fn check_format_check_in(&self) -> (r: Result<(), GuestError>)
        ensures
            outcome(r) == flag(date_parses(self.check_in@), "check in date"@),
    {
        if !is_calendar_date(self.check_in.as_str()) {
            return Err(GuestError::InvalidInput(String::from_str("check in date")));
        }
        Ok(())
    }

    pub fn check_format_check_out(&self) -> (r: Result<(), GuestError>)
        ensures
            outcome(r) == flag(date_parses(self.check_out@), "check out date"@),
    {
        if !is_calendar_date(self.check_out.as_str()) {
            return Err(GuestError::InvalidInput(String::from_str("check out date")));
        }
        Ok(())
    }

    pub fn check_format_surname(&self) -> (r: Result<(), GuestError>)
        ensures
            outcome(r) == flag(within(self.surname@, 1, 50), "surname"@),
    {
        let n = self.surname.as_str().unicode_len();
        if 1 <= n && n <= 50 {
            Ok(())
        } else {
            Err(GuestError::InvalidInput(String::from_str("surname")))
        }
    }

    pub fn check_format_first_name(&self) -> (r: Result<(), GuestError>)
        ensures
            outcome(r) == flag(within(self.first_name@, 0, 24), "first name"@),
    {
        if self.first_name.as_str().unicode_len() <= 24 {
            Ok(())
        } else {
            Err(GuestError::InvalidInput(String::from_str("first name")))
        }
    }

    pub fn check_format_dob(&self) -> (r: Result<(), GuestError>)
        ensures
            outcome(r) == flag(date_parses(self.birth_date@), "date of birth"@),
    {
        if !is_calendar_date(self.birth_date.as_str()) {
            return Err(GuestError::InvalidInput(String::from_str("date of birth")));
        }
        Ok(())
    }

    pub fn check_format_country_of_citizenship(&self) -> (r: Result<(), GuestError>)
        ensures
            outcome(r) == flag(self.country_of_citizenship@.len() == 3, "country of citizenship"@),
    {
        if self.country_of_citizenship.as_str().unicode_len() == 3 {
            Ok(())
        } else {
            Err(GuestError::InvalidInput(String::from_str("country of citizenship")))
        }
    }

    pub fn check_format_address_abroad(&self) -> (r: Result<(), GuestError>)
        ensures
            outcome(r) == flag(within(self.address_abroad@, 0, 255), "address abroad"@),
    {
        if self.address_abroad.as_str().unicode_len() <= 255 {
            Ok(())
        } else {
            Err(GuestError::InvalidInput(String::from_str("address abroad")))
        }
    }

    pub fn check_format_travel_doc_number(&self) -> (r: Result<(), GuestError>)
        ensures
            outcome(r) == flag(within(self.travel_doc_number@, 6, 30), "travel doc number"@),
    {
        let n = self.travel_doc_number.as_str().unicode_len();
        if 6 <= n && n <= 30 {
            Ok(())
        } else {
            Err(GuestError::InvalidInput(String::from_str("travel doc number")))
        }
    }

    pub fn check_format_visa_number(&self) -> (r: Result<(), GuestError>)
        ensures
            outcome(r) == flag(within(self.visa_number@, 0, 15), "visa number"@),
    {
        if self.visa_number.as_str().unicode_len() <= 15 {
            Ok(())
        } else {
            Err(GuestError::InvalidInput(String::from_str("visa number")))
        }
    }

    pub fn check_format_purpose_of_stay(&self) -> (r: Result<(), GuestError>)
        ensures
            outcome(r) == flag(self.purpose_of_stay@.len() == 2, "purpose of stay"@),
    {
        if self.purpose_of_stay.as_str().unicode_len() == 2 {
            Ok(())
        } else {
            Err(GuestError::InvalidInput(String::from_str("purpose of stay")))
        }
    }
}

/// Appends a rule's failure, if any, to `errors`.
fn record(errors: &mut Vec<GuestError>, r: Result<(), GuestError>)
    ensures
        error_views(final(errors)@) == error_views(old(errors)@) + outcome(r),
{
    match r {
        Ok(_) => {
            assert(error_views(errors@) =~= error_views(errors@) + outcome(r));
        },
        Err(e) => {
            errors.push(e);
            assert(error_views(errors@) =~= error_views(old(errors)@) + outcome(r));
        },
    }
}

/// Cuts an export line back into its slots.
pub fn split_u_record(line: &str) -> (r: Vec<String>)
    ensures
        string_views(r@) == split_spec(line@, '|'),
{
    split(line, '|')
}

/// The error summary says that no errors were found exactly when the guest
/// has no recorded errors, that is when it is valid.
pub proof fn lemma_summary_iff_valid(g: Guest)
    ensures
        (summary_of(g.errors_view()) == "No guest input errors found"@) <==> (g.data_errors@.len() == 0),
{
    reveal_strlit("No guest input errors found");
    reveal_strlit("Input error found in field(s): ");
    if g.data_errors@.len() != 0 {
        let s = summary_of(g.errors_view());
        assert(s[0] == 'I');
        assert(("No guest input errors found"@)[0] == 'N');
    }
}

/// The export line depends on the exported fields alone, so rendering the
/// same guest twice gives the same line.
pub proof fn lemma_u_record_deterministic(a: Guest, b: Guest)
    requires
        a.export_fields() == b.export_fields(),
    ensures
        a.u_record() == b.u_record(),
{
}

/// Cutting an export line at `|` gives back the exported slots, the guest's
/// field values among them, when no field value holds a `|`.
pub proof fn lemma_u_record_round_trip(g: Guest)
    requires
        free_of(g.export_fields(), '|'),
    ensures
        split_spec(g.u_record(), '|') == g.export_fields(),
{
    lemma_split_join(g.export_fields(), '|');
}

} // verus!
