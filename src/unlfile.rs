//! The export file: a header line and one line per guest, each ended by CRLF,
//! in the Windows-1250 code page.
use vstd::prelude::*;
use vstd::string::*;
use vstd::utf8::is_ascii_chars;
use crate::guest::Guest;
use crate::text::{free_of, join_spec, lemma_split_append, lemma_split_join, lemma_split_plain, split_spec, string_views};

verus! {

/// Why an export file could not be produced.
#[derive(Debug)]
pub enum UnlFileError {
    /// Writing the file failed; the message says why.
    IOError(String),
    /// The text holds a character that Windows-1250 cannot represent.
    EncodingError,
}

/// What encoding_rs makes of `s` in Windows-1250: the bytes, or `None` when a
/// character has no mapping there.
pub uninterp spec fn windows_1250_of(s: Seq<char>) -> Option<Seq<u8>>;

/// Relies on encoding_rs's `Encoding::encode` with `WINDOWS_1250`: the bytes
/// depend on the text alone, its third result flags unmappable characters, and
/// an ASCII text comes back as its own bytes.
#[verifier::external_body]
fn encode_windows_1250(s: &str) -> (r: Option<Vec<u8>>)
    ensures
        r is Some ==> windows_1250_of(s@) == Some(r->0@),
        r is None ==> windows_1250_of(s@) is None,
        is_ascii_chars(s@) ==> r is Some && r->0@ == s@.map_values(|c: char| c as u8),
{
    let (bytes, _, had_errors) = encoding_rs::WINDOWS_1250.encode(s);
    if had_errors {
        None
    } else {
        Some(bytes.into_owned())
    }
}

/// The lines, each followed by CRLF.
pub open spec fn crlf_lines(lines: Seq<Seq<char>>) -> Seq<char>
    decreases lines.len(),
{
    if lines.len() == 0 {
        Seq::empty()
    } else {
        crlf_lines(lines.drop_last()) + lines.last() + "\r\n"@
    }
}

/// The text of an export file: the header line, then each guest line.
pub open spec fn export_text_spec(a_record: Seq<char>, u_records: Seq<Seq<char>>) -> Seq<char> {
    crlf_lines(seq![a_record] + u_records)
}

/// The encoded export file, or the reason there is none.
pub open spec fn export_bytes_spec(a_record: Seq<char>, u_records: Seq<Seq<char>>) -> Result<Seq<u8>, ()> {
    match windows_1250_of(export_text_spec(a_record, u_records)) {
        Some(b) => Ok(b),
        None => Err(()),
    }
}

/// The text of an export file: the header line, then each guest line, each
/// ended by CRLF.
pub fn export_text(a_record: &str, u_records: &Vec<String>) -> (r: String)
    ensures
        r@ == export_text_spec(a_record@, string_views(u_records@)),
{
    let ghost all = seq![a_record@] + string_views(u_records@);
    let mut text = String::from_str(a_record);
    text.append("\r\n");
    assert(all.take(1).drop_last() =~= Seq::<Seq<char>>::empty());
    assert(all.take(1).last() == a_record@);
    assert(crlf_lines(Seq::<Seq<char>>::empty()) == Seq::<char>::empty());
    assert(text@ =~= Seq::<char>::empty() + a_record@ + "\r\n"@);
    let mut i: usize = 0;
    while i < u_records.len()
        invariant
            i <= u_records@.len(),
            all == seq![a_record@] + string_views(u_records@),
            text@ == crlf_lines(all.take(i + 1)),
        decreases u_records@.len() - i,
    {
        assert(all.take(i + 2).drop_last() =~= all.take(i + 1));
        assert(all.take(i + 2).last() == u_records@[i as int]@);
        text.append(u_records[i].as_str());
        text.append("\r\n");
        i = i + 1;
    }
    assert(all.take(i + 1) =~= all);
    text
}

/// The export file in Windows-1250: the header line, then each guest line,
/// each ended by CRLF. Fails when a character cannot be represented.
pub fn build_unl(a_record: &str, u_records: &Vec<String>) -> (r: Result<Vec<u8>, UnlFileError>)
    ensures
        r matches Ok(b) ==> export_bytes_spec(a_record@, string_views(u_records@)) == Ok::<Seq<u8>, ()>(b@),
        r matches Err(e) ==> e is EncodingError && export_bytes_spec(a_record@, string_views(u_records@)) is Err,
{
    let text = export_text(a_record, u_records);
    match encode_windows_1250(text.as_str()) {
        Some(b) => Ok(b),
        None => Err(UnlFileError::EncodingError),
    }
}

/// `s` holds no line feed.
pub open spec fn no_line_feed(s: Seq<char>) -> bool {
    forall|j: int| 0 <= j < s.len() ==> s[j] != '\n'
}

/// Each line followed by CR alone.
pub open spec fn with_cr(lines: Seq<Seq<char>>) -> Seq<Seq<char>> {
    lines.map_values(|l: Seq<char>| l + "\r"@)
}

/// Cutting CRLF-ended lines at LF, after the final LF is dropped, gives each
/// line followed by its CR.
proof fn lemma_split_crlf(lines: Seq<Seq<char>>)
    requires
        lines.len() >= 1,
        forall|i: int| 0 <= i < lines.len() ==> no_line_feed(#[trigger] lines[i]),
    ensures
        crlf_lines(lines).len() >= 1,
        crlf_lines(lines).last() == '\n',
        split_spec(crlf_lines(lines).drop_last(), '\n') == with_cr(lines),
    decreases lines.len(),
{
    reveal_strlit("\r\n");
    reveal_strlit("\r");
    let init = lines.drop_last();
    let b = lines.last();
    assert(no_line_feed(lines[lines.len() - 1]));
    let br = b + "\r"@;
    assert(no_line_feed(br));
    if lines.len() == 1 {
        assert(init =~= Seq::<Seq<char>>::empty());
        assert(crlf_lines(init) == Seq::<char>::empty());
        assert("\r\n"@ =~= seq!['\r', '\n']);
        assert("\r"@ =~= seq!['\r']);
        assert(crlf_lines(lines) =~= b + seq!['\r', '\n']);
        assert(crlf_lines(lines).drop_last() =~= br);
        lemma_split_plain(br, '\n');
        assert(with_cr(lines) =~= seq![br]);
    } else {
        assert forall|i: int| 0 <= i < init.len() implies no_line_feed(#[trigger] init[i]) by {
            assert(init[i] == lines[i]);
        }
        lemma_split_crlf(init);
        let c = crlf_lines(init);
        assert(c =~= c.drop_last() + seq!['\n']);
        assert(crlf_lines(lines).drop_last() =~= c.drop_last() + seq!['\n'] + br);
        lemma_split_append(c.drop_last(), '\n', br);
        assert(with_cr(lines) =~= with_cr(init).push(br));
    }
}

/// Joining slots free of LF at `|` gives a line free of LF.
proof fn lemma_join_no_line_feed(parts: Seq<Seq<char>>)
    requires
        free_of(parts, '\n'),
    ensures
        no_line_feed(join_spec(parts, seq!['|'])),
    decreases parts.len(),
{
    if parts.len() == 1 {
        assert(parts[0] == parts[0]);
        assert forall|j: int| 0 <= j < parts[0].len() implies parts[0][j] != '\n' by {
            assert(parts[0][j] != '\n');
        }
    } else if parts.len() > 1 {
        let init = parts.drop_last();
        assert forall|i: int, j: int| 0 <= i < init.len() && 0 <= j < init[i].len() implies #[trigger] init[i][j] != '\n' by {
            assert(init[i] == parts[i]);
        }
        lemma_join_no_line_feed(init);
        let last = parts.last();
        assert forall|j: int| 0 <= j < last.len() implies last[j] != '\n' by {
            assert(parts[parts.len() - 1][j] != '\n');
        }
        let joined = join_spec(init, seq!['|']) + seq!['|'] + last;
        assert forall|j: int| 0 <= j < joined.len() implies joined[j] != '\n' by {
            let k = join_spec(init, seq!['|']).len();
            if j < k {
                assert(joined[j] == join_spec(init, seq!['|'])[j]);
            } else if j == k {
                assert(joined[j] == '|');
            } else {
                assert(joined[j] == last[j - k - 1]);
            }
        }
    }
}

/// Reading an export file's text back: cut at LF (after the final one) and
/// drop each line's CR, the first line is the header and line `i + 1` is the
/// export line of guest `i`; cutting that line at `|` gives back the guest's
/// exported slots. This holds when the header has no LF and no guest field
/// holds `|` or LF.
pub proof fn lemma_export_round_trip(a_record: Seq<char>, guests: Seq<Guest>)
    requires
        no_line_feed(a_record),
        forall|i: int| 0 <= i < guests.len() ==> free_of((#[trigger] guests[i]).export_fields(), '|'),
        forall|i: int| 0 <= i < guests.len() ==> free_of((#[trigger] guests[i]).export_fields(), '\n'),
    ensures
        ({
            let text = export_text_spec(a_record, guests.map_values(|g: Guest| g.u_record()));
            let lines = split_spec(text.drop_last(), '\n');
            &&& text.last() == '\n'
            &&& lines.len() == guests.len() + 1
            &&& lines[0].drop_last() == a_record
            &&& forall|i: int| 0 <= i < guests.len() ==> #[trigger] lines[i + 1].drop_last() == guests[i].u_record()
                && split_spec(lines[i + 1].drop_last(), '|') == guests[i].export_fields()
        }),
{
    reveal_strlit("\r");
    let us = guests.map_values(|g: Guest| g.u_record());
    let all = seq![a_record] + us;
    assert forall|i: int| 0 <= i < all.len() implies no_line_feed(#[trigger] all[i]) by {
        if i > 0 {
            lemma_join_no_line_feed(guests[i - 1].export_fields());
            assert(all[i] == guests[i - 1].u_record());
        }
    }
    lemma_split_crlf(all);
    let lines = split_spec(export_text_spec(a_record, us).drop_last(), '\n');
    assert(lines == with_cr(all));
    assert((a_record + "\r"@).drop_last() =~= a_record);
    assert forall|i: int| 0 <= i < guests.len() implies #[trigger] lines[i + 1].drop_last() == guests[i].u_record()
        && split_spec(lines[i + 1].drop_last(), '|') == guests[i].export_fields() by {
        assert(lines[i + 1] == all[i + 1] + "\r"@);
        assert(all[i + 1] == guests[i].u_record());
        assert((guests[i].u_record() + "\r"@).drop_last() =~= guests[i].u_record());
        lemma_split_join(guests[i].export_fields(), '|');
    }
}

} // verus!
