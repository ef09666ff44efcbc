use guest_checkin::guest::{Guest, GuestError};
use guest_checkin::guest::split_u_record;

fn s(v: &str) -> String {
    v.to_string()
}

struct Fields {
    purpose_of_stay: String,
    check_in: String,
    check_out: String,
    surname: String,
    first_name: String,
    birth_date: String,
    country_of_citizenship: String,
    travel_doc_number: String,
    visa_number: String,
    address_abroad: String,
}

fn valid_fields() -> Fields {
    Fields {
        purpose_of_stay: s("10"),
        check_in: s("01.03.2024"),
        check_out: s("05.03.2024"),
        surname: s("Novak"),
        first_name: s("Jan"),
        birth_date: s("15.06.1985"),
        country_of_citizenship: s("USA"),
        travel_doc_number: s("AB123456"),
        visa_number: s(""),
        address_abroad: s("1 Main St, Springfield"),
    }
}

fn build(f: Fields) -> Guest {
    Guest::new(
        &s("2"),
        s("1/3/2024 10:00:00"),
        f.purpose_of_stay,
        f.check_in,
        f.check_out,
        f.surname,
        f.first_name,
        f.birth_date,
        f.country_of_citizenship,
        f.travel_doc_number,
        f.visa_number,
        f.address_abroad,
        s("Jan Novak"),
    )
}

fn names(g: &Guest) -> Vec<String> {
    g.data_errors.iter().map(|e| e.field().to_string()).collect()
}

#[test]
fn valid_guest_has_no_errors() {
    let g = build(valid_fields());
    assert!(g.is_valid());
    assert!(g.data_errors.is_empty());
    assert_eq!(g.get_data_errors(), "No guest input errors found");
}

#[test]
fn invalid_guest_summary_lists_fields_in_order() {
    let mut f = valid_fields();
    f.purpose_of_stay = s("1");
    f.surname = s("");
    f.check_in = s("31.04.2024");
    let g = build(f);
    assert!(!g.is_valid());
    assert_eq!(names(&g), vec![s("check in date"), s("surname"), s("purpose of stay")]);
    assert_eq!(g.get_data_errors(), "Input error found in field(s): check in date, surname, purpose of stay");
}

#[test]
fn single_error_summary_has_no_trailing_separator() {
    let mut f = valid_fields();
    f.visa_number = s("1234567890123456");
    let g = build(f);
    assert_eq!(g.get_data_errors(), "Input error found in field(s): visa number");
}

#[test]
fn every_field_failing_is_reported() {
    let f = Fields {
        purpose_of_stay: s(""),
        check_in: s("x"),
        check_out: s("y"),
        surname: s(""),
        first_name: "a".repeat(25),
        birth_date: s("z"),
        country_of_citizenship: s("US"),
        travel_doc_number: s("12345"),
        visa_number: "v".repeat(16),
        address_abroad: "b".repeat(256),
    };
    let g = build(f);
    assert_eq!(
        names(&g),
        vec![
            s("check in date"),
            s("check out date"),
            s("surname"),
            s("first name"),
            s("date of birth"),
            s("country of citizenship"),
            s("address abroad"),
            s("travel doc number"),
            s("visa number"),
            s("purpose of stay"),
        ]
    );
}

#[test]
fn summary_matches_validity() {
    let valid = build(valid_fields());
    assert_eq!(valid.get_data_errors() == "No guest input errors found", valid.is_valid());
    let mut f = valid_fields();
    f.travel_doc_number = s("1");
    let invalid = build(f);
    assert_eq!(invalid.get_data_errors() == "No guest input errors found", invalid.is_valid());
}

fn check_len(set: fn(&mut Fields, String), len: usize, ok: bool) {
    let mut f = valid_fields();
    set(&mut f, "x".repeat(len));
    assert_eq!(build(f).is_valid(), ok, "length {}", len);
}

#[test]
fn surname_length_boundaries() {
    let set = |f: &mut Fields, v: String| f.surname = v;
    check_len(set, 0, false);
    check_len(set, 1, true);
    check_len(set, 50, true);
    check_len(set, 51, false);
}

#[test]
fn first_name_length_boundaries() {
    let set = |f: &mut Fields, v: String| f.first_name = v;
    check_len(set, 0, true);
    check_len(set, 24, true);
    check_len(set, 25, false);
}

#[test]
fn country_length_boundaries() {
    let set = |f: &mut Fields, v: String| f.country_of_citizenship = v;
    check_len(set, 2, false);
    check_len(set, 3, true);
    check_len(set, 4, false);
}

#[test]
fn address_length_boundaries() {
    let set = |f: &mut Fields, v: String| f.address_abroad = v;
    check_len(set, 0, true);
    check_len(set, 255, true);
    check_len(set, 256, false);
}

#[test]
fn travel_doc_length_boundaries() {
    let set = |f: &mut Fields, v: String| f.travel_doc_number = v;
    check_len(set, 5, false);
    check_len(set, 6, true);
    check_len(set, 30, true);
    check_len(set, 31, false);
}

#[test]
fn visa_length_boundaries() {
    let set = |f: &mut Fields, v: String| f.visa_number = v;
    check_len(set, 0, true);
    check_len(set, 15, true);
    check_len(set, 16, false);
}

#[test]
fn purpose_length_boundaries() {
    let set = |f: &mut Fields, v: String| f.purpose_of_stay = v;
    check_len(set, 1, false);
    check_len(set, 2, true);
    check_len(set, 3, false);
}

#[test]
fn lengths_count_characters_not_bytes() {
    let mut f = valid_fields();
    f.surname = "Ž".repeat(50);
    f.country_of_citizenship = s("ČŘŠ");
    assert!(build(f).is_valid());
    let mut f = valid_fields();
    f.first_name = "ř".repeat(25);
    assert!(!build(f).is_valid());
}

fn date_ok(d: &str) -> bool {
    let mut f = valid_fields();
    f.birth_date = s(d);
    build(f).is_valid()
}

#[test]
fn dates_accept_leap_day() {
    assert!(date_ok("29.02.2024"));
    assert!(date_ok("31.12.1999"));
}

#[test]
fn dates_reject_impossible_and_garbage() {
    assert!(!date_ok("29.02.2023"));
    assert!(!date_ok("31.04.2024"));
    assert!(!date_ok("00.01.2024"));
    assert!(!date_ok("ab.cd.efgh"));
    assert!(!date_ok(""));
    assert!(!date_ok("2024-02-29"));
}

#[test]
fn each_date_field_is_checked() {
    let mut f = valid_fields();
    f.check_out = s("32.01.2024");
    let g = build(f);
    assert_eq!(names(&g), vec![s("check out date")]);
}

#[test]
fn us_citizenship_is_rejected() {
    let mut f = valid_fields();
    f.country_of_citizenship = s("US");
    let g = build(f);
    assert!(!g.is_valid());
    assert!(g.get_data_errors().contains("country of citizenship"));
}

#[test]
fn u_record_layout() {
    let g = build(valid_fields());
    assert_eq!(
        g.get_u_record(),
        "U|01.03.2024|05.03.2024|Novak|Jan||15.06.1985|||USA|1 Main St, Springfield|AB123456||10||"
    );
}

#[test]
fn u_record_is_deterministic() {
    let g = build(valid_fields());
    let a = g.get_u_record();
    let b = g.get_u_record();
    assert_eq!(a.as_bytes(), b.as_bytes());
}

#[test]
fn u_record_round_trip() {
    let g = build(valid_fields());
    let parts = split_u_record(&g.get_u_record());
    assert_eq!(parts.len(), 16);
    assert_eq!(parts[0], "U");
    assert_eq!(parts[1], g.check_in);
    assert_eq!(parts[2], g.check_out);
    assert_eq!(parts[3], g.surname);
    assert_eq!(parts[4], g.first_name);
    assert_eq!(parts[5], "");
    assert_eq!(parts[6], g.birth_date);
    assert_eq!(parts[7], "");
    assert_eq!(parts[8], "");
    assert_eq!(parts[9], g.country_of_citizenship);
    assert_eq!(parts[10], g.address_abroad);
    assert_eq!(parts[11], g.travel_doc_number);
    assert_eq!(parts[12], g.visa_number);
    assert_eq!(parts[13], g.purpose_of_stay);
    assert_eq!(parts[14], "");
    assert_eq!(parts[15], "");
}

#[test]
fn error_message_names_field() {
    let e = GuestError::InvalidInput(s("surname"));
    assert_eq!(e.message(), "Invalid input provided for surname");
    assert_eq!(e.field(), "surname");
}
