//! The decisions of the submission path: which files a record goes to,
//! when the hot file is retired and into which slot, and the notification
//! of a new row.
use vstd::prelude::*;
use vstd::utf8::encode_utf8;
use vstd::string::StringExecFns;
use chrono::Datelike;
use crate::decimal::is_digit;
use crate::layout::{day_dir_name, day_dir_name_of, max_slot, names_view, next_slot, next_slot_of,
    text, LogFile};
use crate::model::rotates;
use crate::record::{count_rows, csv_line_of, encoded, fields_of, header_fields, needs_header, rows_in,
    wants_header, Record, RecordView};
use crate::settings::{target_of, Settings};

verus! {

/// Why a submission could not be completed.
pub enum SubmitError {
    /// The rotation directory already holds the largest slot number, so the
    /// hot file has no slot to go to.
    SlotsExhausted,
}

/// Bytes to append to one log file.
pub struct Append {
    pub file: LogFile,
    pub bytes: Vec<u8>,
}

/// The appends of one submission, in order, and the rows the hot file
/// held before its append.
pub struct WritePlan {
    pub appends: Vec<Append>,
    pub hot_rows_before: usize,
}

pub open spec fn contents_view(c: Option<Vec<u8>>) -> Option<Seq<u8>> {
    match c {
        Some(b) => Some(b@),
        None => None,
    }
}

/// The bytes appended to a file with these contents: a header goes first
/// exactly when the file holds no rows.
pub open spec fn append_for(r: RecordView, contents: Option<Seq<u8>>) -> Seq<u8> {
    encoded(r, wants_header(rows_in(contents)))
}

/// A datagram to send.
pub struct Notification {
    /// `host:port` to send to.
    pub target: String,
    pub payload: Vec<u8>,
}

/// An OSC string: its bytes, then one to four zero bytes up to a multiple
/// of four.
pub open spec fn osc_padded(b: Seq<u8>) -> Seq<u8> {
    b + Seq::new((4 - b.len() % 4) as nat, |i: int| 0u8)
}

/// An OSC message with address `addr` and one string argument `arg`.
pub open spec fn osc_text_message_bytes(addr: Seq<char>, arg: Seq<char>) -> Seq<u8> {
    osc_padded(encode_utf8(addr)) + osc_padded(seq![44u8, 115u8]) + osc_padded(encode_utf8(arg))
}

/// The datagram that announces a new row.
pub open spec fn new_row_bytes(sentence: Seq<char>) -> Seq<u8> {
    osc_text_message_bytes(text("/new_row"), sentence)
}

/// Relies on rosc::encoder::encode for a message with one string argument:
/// the padded address, the padded type tags `,s`, the padded string. Its
/// source returns `Ok` for every packet.
#[verifier::external_body]
fn osc_text_message(addr: &str, arg: &str) -> (r: Vec<u8>)
    ensures
        r@ == osc_text_message_bytes(addr@, arg@),
{
    let packet = rosc::OscPacket::Message(rosc::OscMessage {
        addr: addr.to_string(),
        args: vec![rosc::OscType::String(arg.to_string())],
    });
    match rosc::encoder::encode(&packet) {
        Ok(b) => b,
        Err(_) => Vec::new(),
    }
}

/// Relies on chrono::Local::now and Datelike: today's local date as day
/// (1 to 31), month (1 to 12) and year.
#[verifier::external_body]
fn local_today() -> (r: (u32, u32, i32))
    ensures
        1 <= r.0 <= 31,
        1 <= r.1 <= 12,
{
    let d = chrono::Local::now().date_naive();
    (d.day(), d.month(), d.year())
}

/// The shape of RFC 3339 text for a UTC time as chrono writes it: the year
/// (four digits, or a sign and digits), `-MM-DDTHH:MM:SS`, an optional
/// fraction of a second, and the offset `+00:00`.
pub open spec fn rfc3339_utc_shape(s: Seq<char>) -> bool {
    exists|y: int|
        4 <= y && y + 21 <= s.len() && #[trigger] s[y] == '-'
        && (is_digit(s[0]) || s[0] == '+' || s[0] == '-')
        && (forall|i: int| 1 <= i < y ==> is_digit(#[trigger] s[i]))
        && is_digit(s[y + 1]) && is_digit(s[y + 2]) && s[y + 3] == '-'
        && is_digit(s[y + 4]) && is_digit(s[y + 5]) && s[y + 6] == 'T'
        && is_digit(s[y + 7]) && is_digit(s[y + 8]) && s[y + 9] == ':'
        && is_digit(s[y + 10]) && is_digit(s[y + 11]) && s[y + 12] == ':'
        && is_digit(s[y + 13]) && is_digit(s[y + 14])
        && (s[y + 15] == '.' || s[y + 15] == '+')
        && s.subrange(s.len() - 6, s.len() as int) == seq!['+', '0', '0', ':', '0', '0']
}

/// Relies on chrono::Utc::now and DateTime::to_rfc3339 (automatic fraction
/// digits, offset written out): the time now, as RFC 3339 text.
#[verifier::external_body]
fn utc_now_rfc3339() -> (r: String)
    ensures
        rfc3339_utc_shape(r@),
{
    chrono::Utc::now().to_rfc3339()
}

/// A record stamped with the time now, and the name of today's directory.
pub fn stamp(language: &str, sentence: &str) -> (r: (Record, String))
    ensures
        r.0@.language == language@,
        r.0@.sentence == sentence@,
        rfc3339_utc_shape(r.0@.timestamp),
        exists|d: nat, m: nat, y: int| 1 <= d <= 31 && 1 <= m <= 12
            && r.1@ == #[trigger] day_dir_name_of(d, m, y),
{
    let (d, m, y) = local_today();
    let ts = utc_now_rfc3339();
    let dir = day_dir_name(d, m, y);
    (Record::new(language, sentence, ts.as_str()), dir)
}

fn append_to(record: &Record, file: LogFile, contents: &Option<Vec<u8>>) -> (r: (Append, usize))
    ensures
        r.0.file == file,
        r.0.bytes@ == append_for(record@, contents_view(*contents)),
        r.1 as nat == rows_in(contents_view(*contents)),
{
    let rows = count_rows(contents);
    (Append { file, bytes: record.encode(needs_header(rows)) }, rows)
}

/// What one submission appends: to the day's file, the aggregate file and
/// the hot file, in that order, given what each holds now (`None`: no such
/// file). Each append starts with a header exactly when its file holds no
/// rows.
pub fn plan_writes(
    record: &Record,
    day_dir: &str,
    daily: &Option<Vec<u8>>,
    all: &Option<Vec<u8>>,
    hot: &Option<Vec<u8>>,
) -> (r: WritePlan)
    ensures
        r.appends@.len() == 3,
        r.appends@[0].file is Daily && r.appends@[0].file->Daily_0@ == day_dir@,
        r.appends@[0].bytes@ == append_for(record@, contents_view(*daily)),
        r.appends@[1].file is All,
        r.appends@[1].bytes@ == append_for(record@, contents_view(*all)),
        r.appends@[2].file is Hot,
        r.appends@[2].bytes@ == append_for(record@, contents_view(*hot)),
        r.hot_rows_before as nat == rows_in(contents_view(*hot)),
{
    let (d, _) = append_to(record, LogFile::Daily(String::from_str(day_dir)), daily);
    let (a, _) = append_to(record, LogFile::All, all);
    let (h, rows) = append_to(record, LogFile::Hot, hot);
    WritePlan { appends: vec![d, a, h], hot_rows_before: rows }
}

/// Whether the hot file, holding `rows_before` rows before the append, is
/// retired after it under row cap `cap`.
pub fn should_rotate(rows_before: usize, cap: usize) -> (r: bool)
    ensures
        r == rotates(rows_before as nat, cap as nat),
{
    rows_before >= cap || cap - rows_before <= 1
}

/// After an append to a hot file that held `rows_before` rows: `None` where
/// it stays, else the slot it is renamed to, given the names in the
/// rotation directory.
pub fn rotation_slot(rows_before: usize, cap: usize, names: &Vec<String>) -> (r: Result<
    Option<usize>,
    SubmitError,
>)
    ensures
        !rotates(rows_before as nat, cap as nat) ==> r == Ok::<Option<usize>, SubmitError>(None),
        rotates(rows_before as nat, cap as nat) && max_slot(names_view(names@)) < usize::MAX ==> (
        r is Ok && r->Ok_0 is Some && r->Ok_0->Some_0 as nat == next_slot_of(names_view(names@))),
        rotates(rows_before as nat, cap as nat) && max_slot(names_view(names@)) == usize::MAX ==> (
        r is Err && r->Err_0 is SlotsExhausted),
{
    if !should_rotate(rows_before, cap) {
        return Ok(None);
    }
    match next_slot(names) {
        Some(s) => Ok(Some(s)),
        None => Err(SubmitError::SlotsExhausted),
    }
}

/// The notification of a new row, where the settings name a target.
pub fn new_row_notification(settings: &Settings, sentence: &str) -> (r: Option<Notification>)
    ensures
        match target_of(settings@) {
            None => r is None,
            Some(t) => r is Some && r->0.target@ == t && r->0.payload@ == new_row_bytes(sentence@),
        },
{
    match settings.notification_target() {
        None => None,
        Some(t) => Some(Notification { target: t, payload: osc_text_message("/new_row", sentence) }),
    }
}

/// After the hot file is removed, the next submission starts it afresh:
/// its append is the header line and then the record's line, it counted no
/// rows before, and with a cap of 2 or more it is not retired at once.
pub proof fn lemma_hot_restarts_after_removal(r: RecordView, cap: nat)
    ensures
        rows_in(None) == 0,
        append_for(r, None) == csv_line_of(header_fields()) + csv_line_of(fields_of(r)),
        cap >= 2 ==> !rotates(rows_in(None), cap),
{
}

} // verus!
