use guest_checkin::email::{email_html, file_name_of, raw_email, table_rows_html};

fn s(v: &str) -> String {
    v.to_string()
}

#[test]
fn table_rows_wrap_cells() {
    let head = vec![s("A"), s("B")];
    let rows = vec![vec![s("1"), s("2")], vec![s("3")]];
    assert_eq!(
        table_rows_html(&head, &rows),
        "<tr><td>A</td><td>B</td></tr><tr><td>1</td><td>2</td></tr><tr><td>3</td></tr>"
    );
}

#[test]
fn html_has_both_tables() {
    let unreg = vec![vec![s("Flat"), s("2"), s("Jan Novak"), s("01.03.2024"), s("05.03.2024")]];
    let issues = vec![vec![s("Flat"), s("3"), s("Eva Nova"), s("Input error found in field(s): surname")]];
    let html = email_html(&unreg, &issues);
    assert!(html.contains("<tr><td>Listing</td><td>Row</td><td>Fullname</td><td>Check In</td><td>Check Out</td></tr><tr><td>Flat</td><td>2</td><td>Jan Novak</td><td>01.03.2024</td><td>05.03.2024</td></tr>"));
    assert!(html.contains("<tr><td>Listing</td><td>Row</td><td>Fullname</td><td>Input Error(s)</td></tr><tr><td>Flat</td><td>3</td>"));
    let first = html.find("Guests Available for Checkin").unwrap();
    let second = html.find("Guests with Checkin Issues").unwrap();
    assert!(first < second);
    assert!(html.trim_end().ends_with("</html>"));
}

#[test]
fn file_name_is_last_path_piece() {
    assert_eq!(file_name_of("out/dir/Flat.unl"), "Flat.unl");
    assert_eq!(file_name_of("Flat.unl"), "Flat.unl");
    assert_eq!(file_name_of("dir/"), "");
}

#[test]
fn raw_email_layout() {
    let msg = raw_email(
        "from@example.com",
        &vec![s("a@example.com"), s("b@example.com")],
        "Subject line",
        "<html></html>",
        &vec![1, 2, 3],
        &vec![s("out/Flat.unl")],
        &vec![b"hello".to_vec()],
    );
    assert!(msg.starts_with("From: from@example.com\r\nTo: a@example.com, b@example.com, \r\nSubject: Subject line\r\nMIME-Version: 1.0\r\n"));
    assert!(msg.contains("Content-Transfer-Encoding: 7bit\r\n\r\n<html></html>\r\n\r\n--subboundary--\r\n"));
    assert!(msg.contains("Content-ID: <header_image.jpg>\r\n\r\nAQID\r\n"));
    assert!(msg.contains("--boundary\r\nContent-Type: application/octet-stream; name=\"Flat.unl\"\r\nContent-Transfer-Encoding: base64\r\nContent-Disposition: attachment; filename=\"Flat.unl\"\r\n\r\naGVsbG8=\r\n"));
    assert!(msg.ends_with("--boundary--"));
}

#[test]
fn raw_email_without_attachments() {
    let msg = raw_email("f", &vec![], "s", "h", &vec![], &vec![], &vec![]);
    assert!(msg.starts_with("From: f\r\nTo: \r\nSubject: s\r\n"));
    assert!(msg.ends_with("Content-ID: <header_image.jpg>\r\n\r\n\r\n--boundary--"));
}
