//! Records and their CSV form: encoding one row, counting the rows of a file.
use vstd::prelude::*;
use vstd::string::StringExecFns;
use crate::layout::{names_view, text};

verus! {

/// One accepted submission.
pub struct Record {
    pub language: String,
    pub sentence: String,
    /// RFC 3339 time of the submission.
    pub timestamp: String,
}

/// What a record holds.
pub struct RecordView {
    pub language: Seq<char>,
    pub sentence: Seq<char>,
    pub timestamp: Seq<char>,
}

impl View for Record {
    type V = RecordView;

    open spec fn view(&self) -> RecordView {
        RecordView {
            language: self.language@,
            sentence: self.sentence@,
            timestamp: self.timestamp@,
        }
    }
}

/// The three fields of a record, in column order.
pub open spec fn fields_of(r: RecordView) -> Seq<Seq<char>> {
    seq![r.language, r.sentence, r.timestamp]
}

/// The names of the three columns.
pub open spec fn header_fields() -> Seq<Seq<char>> {
    seq![text("language"), text("sentence"), text("timestamp")]
}

/// The bytes that the csv crate writes for one record of the given fields.
pub uninterp spec fn csv_line_of(fields: Seq<Seq<char>>) -> Seq<u8>;

/// The number of data records (the first line being the header) that the
/// csv crate reads from the bytes, or `None` where it reports an error.
pub uninterp spec fn csv_records_in(data: Seq<u8>) -> Option<nat>;

/// Relies on csv::Writer::write_record, into a fresh in-memory writer with
/// the crate's defaults: the bytes of one record depend on its fields alone.
/// Its source reports no error here: a `Vec` takes every write, and the
/// first record of a writer sets the field count.
#[verifier::external_body]
fn csv_line(fields: &Vec<String>) -> (r: Vec<u8>)
    ensures
        r@ == csv_line_of(names_view(fields@)),
{
    let mut w = csv::Writer::from_writer(Vec::new());
    if w.write_record(fields).is_err() {
        return Vec::new();
    }
    match w.into_inner() {
        Ok(b) => b,
        Err(_) => Vec::new(),
    }
}

/// Relies on csv::Reader::records with the crate's defaults (a header line,
/// then records): how many records the bytes hold, or `None` on the first
/// error the reader reports.
#[verifier::external_body]
fn csv_record_count(data: &[u8]) -> (r: Option<usize>)
    ensures
        match r {
            Some(n) => csv_records_in(data@) == Some(n as nat),
            None => csv_records_in(data@) is None,
        },
{
    let mut rdr = csv::Reader::from_reader(data);
    rdr.records().collect::<Result<Vec<_>, _>>().ok().map(|v| v.len())
}

/// The bytes appended for a record: the header line first where asked,
/// then the record's line.
pub open spec fn encoded(r: RecordView, header: bool) -> Seq<u8> {
    if header {
        csv_line_of(header_fields()) + csv_line_of(fields_of(r))
    } else {
        csv_line_of(fields_of(r))
    }
}

/// Rows that a log file holds, by policy: a missing file (`None`) or one
/// that does not read as CSV holds none.
pub open spec fn rows_in(contents: Option<Seq<u8>>) -> nat {
    match contents {
        None => 0,
        Some(b) => match csv_records_in(b) {
            Some(n) => n,
            None => 0,
        },
    }
}

/// A header goes in front of the row exactly when the file holds no rows.
pub open spec fn wants_header(rows: nat) -> bool {
    rows == 0
}

impl Record {
    pub fn new(language: &str, sentence: &str, timestamp: &str) -> (r: Record)
        ensures
            r@ == (RecordView { language: language@, sentence: sentence@, timestamp: timestamp@ }),
    {
        Record {
            language: String::from_str(language),
            sentence: String::from_str(sentence),
            timestamp: String::from_str(timestamp),
        }
    }

    /// The bytes to append for this record, with the header line in front
    /// where `header` is set.
    pub fn encode(&self, header: bool) -> (r: Vec<u8>)
        ensures
            r@ == encoded(self@, header),
    {
        let fields = vec![self.language.clone(), self.sentence.clone(), self.timestamp.clone()];
        assert(names_view(fields@) =~= fields_of(self@));
        let mut line = csv_line(&fields);
        if !header {
            return line;
        }
        let names = vec![String::from_str("language"), String::from_str("sentence"),
            String::from_str("timestamp")];
        assert(names_view(names@) =~= header_fields());
        let mut out = csv_line(&names);
        out.append(&mut line);
        out
    }
}

/// Rows that a log file holds, from its contents (`None`: no such file).
pub fn count_rows(contents: &Option<Vec<u8>>) -> (r: usize)
    ensures
        r as nat == rows_in(match contents {
            Some(b) => Some(b@),
            None => None,
        }),
{
    match contents {
        None => 0,
        Some(b) => match csv_record_count(b.as_slice()) {
            Some(n) => n,
            None => 0,
        },
    }
}

/// Whether a row appended to a file with `rows` rows goes with a header.
pub fn needs_header(rows: usize) -> (r: bool)
    ensures
        r == wants_header(rows as nat),
{
    rows == 0
}

} // verus!
