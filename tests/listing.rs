use guest_checkin::listing::Listing;
use guest_checkin::text::replace_all;

#[test]
fn a_record_gets_date_filled_in() {
    let l = Listing::new("1", "Flat", "Main St 1", "sheet", "Responses", "A|123|AddDate|x", "2024.03.01 10:20:30");
    assert_eq!(l.get_a_record(), "A|123|2024.03.01 10:20:30|x");
    assert_eq!(l.get_name(), "Flat");
    assert_eq!(l.reservation.marker_column_range(), "Responses!M2:M");
}

#[test]
fn every_placeholder_is_replaced() {
    assert_eq!(Listing::add_datetime("AddDate AddDate", "T"), "T T");
    assert_eq!(Listing::add_datetime("no placeholder", "T"), "no placeholder");
    assert_eq!(Listing::add_datetime("AddDat", "T"), "AddDat");
}

#[test]
fn replace_scans_without_overlap() {
    assert_eq!(replace_all("aaa", "aa", "b"), "ba");
    assert_eq!(replace_all("", "x", "y"), "");
}
