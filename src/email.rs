//! The notification e-mail: two HTML tables of guests and a raw MIME message
//! with the header image and the export files attached.
use vstd::prelude::*;
use vstd::string::*;
use crate::text::{lemma_split_len, split, split_spec, string_views};

verus! {

/// What base64's standard, padded `encode` returns for `b`.
pub uninterp spec fn base64_of(b: Seq<u8>) -> Seq<char>;

/// Relies on base64's `encode`: standard alphabet with padding; the text
/// depends on the bytes alone.
#[verifier::external_body]
#[allow(deprecated)]
fn base64_encode(b: &Vec<u8>) -> (r: String)
    ensures
        r@ == base64_of(b@),
{
    base64::encode(b)
}

/// The views of a table of strings.
pub open spec fn table_views(rows: Seq<Vec<String>>) -> Seq<Seq<Seq<char>>> {
    rows.map_values(|r: Vec<String>| string_views(r@))
}

/// Each cell wrapped in `<td>` and `</td>`.
pub open spec fn cells_html(cells: Seq<Seq<char>>) -> Seq<char>
    decreases cells.len(),
{
    if cells.len() == 0 {
        Seq::empty()
    } else {
        cells_html(cells.drop_last()) + "<td>"@ + cells.last() + "</td>"@
    }
}

/// One table row.
pub open spec fn row_html(cells: Seq<Seq<char>>) -> Seq<char> {
    "<tr>"@ + cells_html(cells) + "</tr>"@
}

/// The rows one after another.
pub open spec fn rows_html(rows: Seq<Seq<Seq<char>>>) -> Seq<char>
    decreases rows.len(),
{
    if rows.len() == 0 {
        Seq::empty()
    } else {
        rows_html(rows.drop_last()) + row_html(rows.last())
    }
}

/// The header of the table of guests ready for check-in.
pub open spec fn unregistered_header() -> Seq<Seq<char>> {
    seq!["Listing"@, "Row"@, "Fullname"@, "Check In"@, "Check Out"@]
}

/// The header of the table of guests whose data has errors.
pub open spec fn issues_header() -> Seq<Seq<char>> {
    seq!["Listing"@, "Row"@, "Fullname"@, "Input Error(s)"@]
}

pub open spec fn html_head() -> Seq<char> {
    "
            <html>
            <body>
                <img src=\"cid:header_image.jpg\" alt=\"Image\" style=\"width:100%; max-width:600px;\">
                <br>
                <br>
                <h2 style=\"color: #1E90FF;\">Guests Available for Checkin</h2>
                <table border=\"1\">
                    "@
}

pub open spec fn html_middle() -> Seq<char> {
    "
                </table>
                <br>
                <h2 style=\"color: #1E90FF;\">Guests with Checkin Issues</h2>
                <table border=\"1\">
                    "@
}

pub open spec fn html_tail() -> Seq<char> {
    "
                </table>
            </body>
            </html>
            "@
}

/// The HTML body: the header image, then the two tables.
pub open spec fn email_html_spec(unregistered: Seq<Seq<Seq<char>>>, issues: Seq<Seq<Seq<char>>>) -> Seq<char> {
    html_head() + rows_html(seq![unregistered_header()] + unregistered) + html_middle()
        + rows_html(seq![issues_header()] + issues) + html_tail()
}

/// Each recipient followed by `", "`.
pub open spec fn recipients_spec(to: Seq<Seq<char>>) -> Seq<char>
    decreases to.len(),
{
    if to.len() == 0 {
        Seq::empty()
    } else {
        recipients_spec(to.drop_last()) + to.last() + ", "@
    }
}

/// The last piece of a path after its final `/`.
pub open spec fn file_name_spec(path: Seq<char>) -> Seq<char> {
    split_spec(path, '/').last()
}

/// The MIME part of one attached file.
pub open spec fn attachment_part(path: Seq<char>, content: Seq<u8>) -> Seq<char> {
    "--boundary\r\nContent-Type: application/octet-stream; name=\""@ + file_name_spec(path)
        + "\"\r\nContent-Transfer-Encoding: base64\r\nContent-Disposition: attachment; filename=\""@
        + file_name_spec(path) + "\"\r\n\r\n"@ + base64_of(content) + "\r\n"@
}

/// The MIME parts of the attached files, in order.
pub open spec fn attachments_spec(paths: Seq<Seq<char>>, contents: Seq<Seq<u8>>) -> Seq<char>
    decreases paths.len(),
{
    if paths.len() == 0 || contents.len() == 0 {
        Seq::empty()
    } else {
        attachments_spec(paths.drop_last(), contents.drop_last()) + attachment_part(paths.last(), contents.last())
    }
}

/// The message head up to and including the inline header image.
pub open spec fn message_head(
    from: Seq<char>,
    to: Seq<Seq<char>>,
    subject: Seq<char>,
    html: Seq<char>,
    image: Seq<u8>,
) -> Seq<char> {
    "From: "@ + from + "\r\nTo: "@ + recipients_spec(to) + "\r\nSubject: "@ + subject + "\r\n\
        MIME-Version: 1.0\r\n\
        Content-Type: multipart/mixed; boundary=\"boundary\"\r\n\r\n\
        --boundary\r\n\
        Content-Type: multipart/alternative; boundary=\"subboundary\"\r\n\r\n\
        --subboundary\r\n\
        Content-Type: text/plain; charset=\"UTF-8\"\r\n\
        Content-Transfer-Encoding: 7bit\r\n\r\n\
        This is the plain text version of the email.\r\n\r\n\
        --subboundary\r\n\
        Content-Type: text/html; charset=\"UTF-8\"\r\n\
        Content-Transfer-Encoding: 7bit\r\n\r\n"@ + html + "\r\n\r\n\
        --subboundary--\r\n\
        --boundary\r\n\
        Content-Type: image/jpeg; name=\"header_image.jpg\"\r\n\
        Content-Transfer-Encoding: base64\r\n\
        Content-Disposition: inline; filename=\"header_image.jpg\"\r\n\
        Content-ID: <header_image.jpg>\r\n\r\n"@ + base64_of(image) + "\r\n"@
}

/// The raw message: head, attachments, closing boundary.
pub open spec fn raw_email_spec(
    from: Seq<char>,
    to: Seq<Seq<char>>,
    subject: Seq<char>,
    html: Seq<char>,
    image: Seq<u8>,
    paths: Seq<Seq<char>>,
    contents: Seq<Seq<u8>>,
) -> Seq<char> {
    message_head(from, to, subject, html, image) + attachments_spec(paths, contents) + "--boundary--"@
}

/// The table rows, header first, as HTML.
pub fn table_rows_html(header: &Vec<String>, rows: &Vec<Vec<String>>) -> (r: String)
    ensures
        r@ == rows_html(seq![string_views(header@)] + table_views(rows@)),
{
    let ghost all = seq![string_views(header@)] + table_views(rows@);
    let mut r = row_html_exec(header);
    assert(all.take(1).drop_last() =~= Seq::<Seq<Seq<char>>>::empty());
    assert(all.take(1).last() == string_views(header@));
    assert(r@ =~= rows_html(Seq::<Seq<Seq<char>>>::empty()) + row_html(string_views(header@)));
    let mut i: usize = 0;
    while i < rows.len()
        invariant
            i <= rows@.len(),
            all == seq![string_views(header@)] + table_views(rows@),
            r@ == rows_html(all.take(i + 1)),
        decreases rows@.len() - i,
    {
        assert(all.take(i + 2).drop_last() =~= all.take(i + 1));
        assert(all.take(i + 2).last() == string_views(rows@[i as int]@));
        let row = row_html_exec(&rows[i]);
        r.append(row.as_str());
        i = i + 1;
    }
    assert(all.take(i + 1) =~= all);
    r
}

fn row_html_exec(cells: &Vec<String>) -> (r: String)
    ensures
        r@ == row_html(string_views(cells@)),
{
    let ghost vs = string_views(cells@);
    let mut r = String::from_str("<tr>");
    let mut i: usize = 0;
    assert(vs.take(0) =~= Seq::<Seq<char>>::empty());
    assert(r@ =~= "<tr>"@ + cells_html(vs.take(0)));
    while i < cells.len()
        invariant
            i <= cells@.len(),
            vs == string_views(cells@),
            r@ == "<tr>"@ + cells_html(vs.take(i as int)),
        decreases cells@.len() - i,
    {
        assert(vs.take(i + 1).drop_last() =~= vs.take(i as int));
        assert(vs.take(i + 1).last() == cells@[i as int]@);
        r.append("<td>");
        r.append(cells[i].as_str());
        r.append("</td>");
        i = i + 1;
    }
    assert(vs.take(i as int) =~= vs);
    r.append("</tr>");
    r
}

fn strings(items: &[&str]) -> (r: Vec<String>)
    ensures
        string_views(r@) == items@.map_values(|s: &str| s@),
{
    let mut r: Vec<String> = Vec::new();
    let mut i: usize = 0;
    while i < items.len()
        invariant
            i <= items@.len(),
            string_views(r@) == items@.map_values(|s: &str| s@).take(i as int),
        decreases items@.len() - i,
    {
        let ghost before = r@;
        let item = String::from_str(items[i]);
        r.push(item);
        assert(string_views(r@) =~= string_views(before).push(items@[i as int]@));
        assert(items@.map_values(|s: &str| s@).take(i + 1) =~= items@.map_values(|s: &str| s@).take(i as int).push(items@[i as int]@));
        i = i + 1;
    }
    assert(items@.map_values(|s: &str| s@).take(i as int) =~= items@.map_values(|s: &str| s@));
    r
}

/// The HTML body of the notification: the guests ready for check-in
/// (listing, row, full name, check in, check out) and the guests with data
/// errors (listing, row, full name, error summary), each under its header row.
pub fn email_html(unregistered: &Vec<Vec<String>>, issues: &Vec<Vec<String>>) -> (r: String)
    ensures
        r@ == email_html_spec(table_views(unregistered@), table_views(issues@)),
{
    let head1 = strings(&["Listing", "Row", "Fullname", "Check In", "Check Out"]);
    assert(string_views(head1@) =~= unregistered_header());
    let head2 = strings(&["Listing", "Row", "Fullname", "Input Error(s)"]);
    assert(string_views(head2@) =~= issues_header());
    let t1 = table_rows_html(&head1, unregistered);
    let t2 = table_rows_html(&head2, issues);
    let mut r = String::from_str("
            <html>
            <body>
                <img src=\"cid:header_image.jpg\" alt=\"Image\" style=\"width:100%; max-width:600px;\">
                <br>
                <br>
                <h2 style=\"color: #1E90FF;\">Guests Available for Checkin</h2>
                <table border=\"1\">
                    ");
    r.append(t1.as_str());
    r.append("
                </table>
                <br>
                <h2 style=\"color: #1E90FF;\">Guests with Checkin Issues</h2>
                <table border=\"1\">
                    ");
    r.append(t2.as_str());
    r.append("
                </table>
            </body>
            </html>
            ");
    r
}

/// The last piece of a path after its final `/`.
pub fn file_name_of(path: &str) -> (r: String)
    ensures
        r@ == file_name_spec(path@),
{
    let mut pieces = split(path, '/');
    proof {
        lemma_split_len(path@, '/');
    }
    let n = pieces.len();
    pieces.remove(n - 1)
}

/// The raw MIME message: headers, a plain and an HTML alternative, the inline
/// header image, then each attached file under its own file name.
pub fn raw_email(
    from: &str,
    to: &Vec<String>,
    subject: &str,
    html: &str,
    image: &Vec<u8>,
    attachment_paths: &Vec<String>,
    attachment_contents: &Vec<Vec<u8>>,
) -> (r: String)
    requires
        attachment_paths@.len() == attachment_contents@.len(),
    ensures
        r@ == raw_email_spec(
            from@,
            string_views(to@),
            subject@,
            html@,
            image@,
            string_views(attachment_paths@),
            attachment_contents@.map_values(|c: Vec<u8>| c@),
        ),
{
    let ghost tos = string_views(to@);
    let mut recipients = String::new();
    let mut i: usize = 0;
    assert(tos.take(0) =~= Seq::<Seq<char>>::empty());
    while i < to.len()
        invariant
            i <= to@.len(),
            tos == string_views(to@),
            recipients@ == recipients_spec(tos.take(i as int)),
        decreases to@.len() - i,
    {
        assert(tos.take(i + 1).drop_last() =~= tos.take(i as int));
        assert(tos.take(i + 1).last() == to@[i as int]@);
        recipients.append(to[i].as_str());
        recipients.append(", ");
        i = i + 1;
    }
    assert(tos.take(i as int) =~= tos);
    let mut r = String::from_str("From: ");
    r.append(from);
    r.append("\r\nTo: ");
    r.append(recipients.as_str());
    r.append("\r\nSubject: ");
    r.append(subject);
    r.append("\r\n\
        MIME-Version: 1.0\r\n\
        Content-Type: multipart/mixed; boundary=\"boundary\"\r\n\r\n\
        --boundary\r\n\
        Content-Type: multipart/alternative; boundary=\"subboundary\"\r\n\r\n\
        --subboundary\r\n\
        Content-Type: text/plain; charset=\"UTF-8\"\r\n\
        Content-Transfer-Encoding: 7bit\r\n\r\n\
        This is the plain text version of the email.\r\n\r\n\
        --subboundary\r\n\
        Content-Type: text/html; charset=\"UTF-8\"\r\n\
        Content-Transfer-Encoding: 7bit\r\n\r\n");
    r.append(html);
    r.append("\r\n\r\n\
        --subboundary--\r\n\
        --boundary\r\n\
        Content-Type: image/jpeg; name=\"header_image.jpg\"\r\n\
        Content-Transfer-Encoding: base64\r\n\
        Content-Disposition: inline; filename=\"header_image.jpg\"\r\n\
        Content-ID: <header_image.jpg>\r\n\r\n");
    let encoded_image = base64_encode(image);
    r.append(encoded_image.as_str());
    r.append("\r\n");
    let ghost head = r@;
    assert(head =~= message_head(from@, tos, subject@, html@, image@));
    let ghost paths = string_views(attachment_paths@);
    let ghost contents = attachment_contents@.map_values(|c: Vec<u8>| c@);
    let mut k: usize = 0;
    assert(paths.take(0) =~= Seq::<Seq<char>>::empty());
    assert(r@ =~= head + attachments_spec(paths.take(0), contents.take(0)));
    while k < attachment_paths.len()
        invariant
            k <= attachment_paths@.len(),
            attachment_paths@.len() == attachment_contents@.len(),
            paths == string_views(attachment_paths@),
            contents == attachment_contents@.map_values(|c: Vec<u8>| c@),
            r@ == head + attachments_spec(paths.take(k as int), contents.take(k as int)),
        decreases attachment_paths@.len() - k,
    {
        assert(paths.take(k + 1).drop_last() =~= paths.take(k as int));
        assert(contents.take(k + 1).drop_last() =~= contents.take(k as int));
        assert(paths.take(k + 1).last() == attachment_paths@[k as int]@);
        assert(contents.take(k + 1).last() == attachment_contents@[k as int]@);
        let name = file_name_of(attachment_paths[k].as_str());
        let encoded = base64_encode(&attachment_contents[k]);
        let ghost before = r@;
        r.append("--boundary\r\nContent-Type: application/octet-stream; name=\"");
        r.append(name.as_str());
        r.append("\"\r\nContent-Transfer-Encoding: base64\r\nContent-Disposition: attachment; filename=\"");
        r.append(name.as_str());
        r.append("\"\r\n\r\n");
        r.append(encoded.as_str());
        r.append("\r\n");
        assert(r@ =~= before + attachment_part(attachment_paths@[k as int]@, attachment_contents@[k as int]@));
        k = k + 1;
    }
    assert(paths.take(k as int) =~= paths);
    assert(contents.take(k as int) =~= contents);
    r.append("--boundary--");
    r
}

} // verus!
