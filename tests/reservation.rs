use guest_checkin::reservation::{get_unregistered_guests, guest_from_row, guests_from_rows, is_unregistered_marker, Reservation};
use guest_checkin::text::{contains, decimal, trim_quotes};
use guest_checkin::unlfile::build_unl;

fn s(v: &str) -> String {
    v.to_string()
}

fn marker(v: Option<&str>) -> Option<String> {
    v.map(|t| t.to_string())
}

fn valid_row() -> Vec<String> {
    vec![
        s("\"1/3/2024 10:00:00\""),
        s("\"10 - tourism\""),
        s("\"01.03.2024\""),
        s("\"05.03.2024\""),
        s("\"Novak\""),
        s("\"Jan\""),
        s("\"15.06.1985\""),
        s("\"USA - United States\""),
        s("\"AB123456\""),
        s("\"\""),
        s("\"1 Main St\""),
        s("\"Jan Novak\""),
    ]
}

#[test]
fn absent_marker_is_unregistered() {
    assert!(is_unregistered_marker(&None));
}

#[test]
fn false_markers_are_unregistered() {
    assert!(is_unregistered_marker(&marker(Some("FALSE"))));
    assert!(is_unregistered_marker(&marker(Some("false "))));
    assert!(is_unregistered_marker(&marker(Some("is false"))));
    assert!(is_unregistered_marker(&marker(Some("False"))));
}

#[test]
fn other_markers_are_registered() {
    assert!(!is_unregistered_marker(&marker(Some("TRUE"))));
    assert!(!is_unregistered_marker(&marker(Some("yes"))));
    assert!(!is_unregistered_marker(&marker(Some("fals"))));
}

#[test]
fn blank_present_marker_is_registered() {
    assert!(!is_unregistered_marker(&marker(Some(""))));
}

#[test]
fn unregistered_rows_start_at_second_sheet_row() {
    let cells = vec![None, marker(Some("TRUE")), marker(Some("false")), marker(Some("yes")), None];
    assert_eq!(get_unregistered_guests(&cells), vec![2, 4, 6]);
    assert_eq!(get_unregistered_guests(&vec![]), Vec::<u32>::new());
}

#[test]
fn row_becomes_trimmed_and_truncated_guest() {
    let g = guest_from_row(7, &valid_row());
    assert_eq!(g.row, "7");
    assert_eq!(g.timestamp, "1/3/2024 10:00:00");
    assert_eq!(g.purpose_of_stay, "10");
    assert_eq!(g.country_of_citizenship, "USA");
    assert_eq!(g.surname, "Novak");
    assert_eq!(g.visa_number, "");
    assert_eq!(g.full_name, "Jan Novak");
    assert!(g.is_valid());
}

#[test]
fn columns_past_the_twelfth_are_ignored() {
    let mut row = valid_row();
    row.push(s("\"FALSE\""));
    row.push(s("extra"));
    let g = guest_from_row(3, &row);
    assert_eq!(g.full_name, "Jan Novak");
    assert!(g.is_valid());
}

#[test]
fn missing_trailing_cells_read_as_empty() {
    let row: Vec<String> = valid_row().into_iter().take(9).collect();
    let g = guest_from_row(5, &row);
    assert_eq!(g.visa_number, "");
    assert_eq!(g.address_abroad, "");
    assert_eq!(g.full_name, "");
    assert!(g.is_valid());
    let short: Vec<String> = valid_row().into_iter().take(4).collect();
    let g = guest_from_row(6, &short);
    assert!(!g.is_valid());
    assert_eq!(
        g.get_data_errors(),
        "Input error found in field(s): surname, date of birth, country of citizenship, travel doc number"
    );
}

#[test]
fn two_letter_country_fails() {
    let mut row = valid_row();
    row[7] = s("\"US\"");
    let g = guest_from_row(2, &row);
    assert_eq!(g.country_of_citizenship, "US");
    assert!(!g.is_valid());
    assert!(g.get_data_errors().contains("country of citizenship"));
}

#[test]
fn end_to_end_three_rows() {
    let markers = vec![None, marker(Some("TRUE")), marker(Some("false"))];
    let rows = get_unregistered_guests(&markers);
    assert_eq!(rows, vec![2, 4]);
    let fetched = vec![valid_row(), valid_row()];
    let guests = guests_from_rows(&rows, &fetched);
    assert_eq!(guests.len(), 2);
    assert_eq!(guests[0].row, "2");
    assert_eq!(guests[1].row, "4");
    assert!(guests.iter().all(|g| g.is_valid()));
    let lines: Vec<String> = guests.iter().map(|g| g.get_u_record()).collect();
    let bytes = build_unl("A|header|AddDate", &lines).ok().unwrap();
    let text = String::from_utf8(bytes).unwrap();
    assert_eq!(text.matches("\r\n").count(), 3);
    assert!(text.ends_with("||\r\n"));
}

#[test]
fn sheet_ranges() {
    let r = Reservation::new("sheet-id", "Responses");
    assert_eq!(r.marker_column_range(), "Responses!M2:M");
    assert_eq!(r.row_range(12), "Responses!12:12");
    assert_eq!(r.marker_cell_range("4"), "Responses!M4");
    assert_eq!(Reservation::registered_value(), "TRUE");
}

#[test]
fn text_helpers() {
    assert_eq!(trim_quotes("\"\"abc\"\""), "abc");
    assert_eq!(trim_quotes("\"\"\""), "");
    assert_eq!(trim_quotes("a\"b"), "a\"b");
    assert_eq!(decimal(0), "0");
    assert_eq!(decimal(4096), "4096");
    assert_eq!(decimal(u32::MAX), "4294967295");
    assert!(contains("is false", "false"));
    assert!(!contains("fals", "false"));
    assert!(contains("abc", ""));
}
