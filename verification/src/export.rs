//! CSV export of time entries.

use vstd::prelude::*;
use crate::models::{opt_view, AppError, Client, ErrorKind, TimeEntry};
use crate::text::{dec, idec, pad2, push_dec, push_idec, push_pad2, string_of};

verus! {

/// A character that forces quotes around a field: the delimiter, the quote or a line break.
pub open spec fn csv_special(c: char) -> bool {
    c == ',' || c == '"' || c == '\r' || c == '\n'
}

/// A field needs quotes when it holds a special character.
pub open spec fn csv_needs_quotes(f: Seq<char>) -> bool {
    exists|i: int| 0 <= i < f.len() && csv_special(#[trigger] f[i])
}

/// A field's text with each quote doubled.
pub open spec fn doubled_quotes(f: Seq<char>) -> Seq<char>
    decreases f.len(),
{
    if f.len() == 0 {
        Seq::empty()
    } else {
        doubled_quotes(f.drop_last()) + if f.last() == '"' {
            seq!['"', '"']
        } else {
            seq![f.last()]
        }
    }
}

/// A field as written: in quotes, with quotes doubled, when it needs them; as it is otherwise.
pub open spec fn csv_field(f: Seq<char>) -> Seq<char> {
    if csv_needs_quotes(f) {
        seq!['"'] + doubled_quotes(f) + seq!['"']
    } else {
        f
    }
}

/// The first `n` fields as written, separated by commas.
pub open spec fn csv_joined(fields: Seq<Seq<char>>, n: int) -> Seq<char>
    decreases n,
{
    if n <= 0 {
        Seq::empty()
    } else if n == 1 {
        csv_field(fields[0])
    } else {
        csv_joined(fields, n - 1) + seq![','] + csv_field(fields[n - 1])
    }
}

/// The text the `csv` crate's `Writer` with default settings writes for one record: the
/// fields as written, separated by commas, then `\n`; a record that would otherwise be
/// empty is written as `""`.
pub open spec fn csv_record(fields: Seq<Seq<char>>) -> Seq<char> {
    let j = csv_joined(fields, fields.len() as int);
    (if j.len() == 0 {
        seq!['"', '"']
    } else {
        j
    }) + seq!['\n']
}

/// The views of a list of strings.
pub open spec fn views(v: Seq<String>) -> Seq<Seq<char>> {
    Seq::new(v.len(), |i: int| v[i]@)
}

/// Writes one record with a `csv::Writer` (default settings) over an in-memory buffer and
/// returns the text. Trusted: writing to a `Vec<u8>` does not fail, the record is the
/// writer's first (so its field count is never refused) and the bytes are the fields' UTF-8
/// plus ASCII, so the result is `Ok`; its text is `csv_record` of the fields: fields holding
/// a comma, a quote, `\r` or `\n` are quoted with quotes doubled (`QuoteStyle::Necessary`),
/// fields are separated by `,`, the record ends with `\n`, and an empty record is `""`.
#[verifier::external_body]
fn csv_line(fields: &Vec<String>) -> (r: Result<String, String>)
    ensures
        r is Ok,
        r matches Ok(s) ==> s@ == csv_record(views(fields@)),
{
    let mut w = csv::Writer::from_writer(Vec::new());
    w.write_record(fields).map_err(|e| e.to_string())?;
    let bytes = w.into_inner().map_err(|e| e.to_string())?;
    String::from_utf8(bytes).map_err(|e| e.to_string())
}

/// The header record of the export.
pub open spec fn csv_header() -> Seq<Seq<char>> {
    seq!["date"@, "client"@, "start"@, "end"@, "duration_minutes"@, "hours"@, "description"@]
}

/// The name of the client with this id: the last such client in the list, or empty.
pub open spec fn client_name(clients: Seq<Client>, n: int, id: i32) -> Seq<char>
    decreases n,
{
    if n <= 0 {
        Seq::empty()
    } else if clients[n - 1].id == id {
        clients[n - 1].name@
    } else {
        client_name(clients, n - 1, id)
    }
}

/// Hundredths of an hour in `m` minutes, rounded to nearest (`|m| * 100 / 60` is never
/// exactly halfway).
pub open spec fn hundredths(m: int) -> int {
    let a = if m < 0 { -m } else { m };
    (5 * a + 1) / 3
}

/// Hours of `m` minutes with two decimals, as `format!("{:.2}", m as f64 / 60.0)` writes them.
pub open spec fn hours_text(m: int) -> Seq<char> {
    let h = hundredths(m);
    (if m < 0 { seq!['-'] } else { Seq::empty() }) + dec((h / 100) as nat) + seq!['.'] + pad2((h % 100) as nat)
}

/// An optional text, or empty.
pub open spec fn or_empty(o: Option<Seq<char>>) -> Seq<char> {
    match o {
        Some(s) => s,
        None => Seq::empty(),
    }
}

/// The CSV record of one entry.
pub open spec fn entry_fields(e: TimeEntry, clients: Seq<Client>) -> Seq<Seq<char>> {
    seq![
        e.date@,
        client_name(clients, clients.len() as int, e.client_id),
        or_empty(opt_view(e.start_time)),
        or_empty(opt_view(e.end_time)),
        idec(e.duration_minutes as int),
        hours_text(e.duration_minutes as int),
        e.description@,
    ]
}

/// The CSV text of the header and the first `n` entries.
pub open spec fn csv_text(entries: Seq<TimeEntry>, clients: Seq<Client>, n: int) -> Seq<char>
    decreases n,
{
    if n <= 0 {
        csv_record(csv_header())
    } else {
        csv_text(entries, clients, n - 1) + csv_record(entry_fields(entries[n - 1], clients))
    }
}

fn lookup_name(clients: &Vec<Client>, id: i32) -> (name: String)
    ensures
        name@ == client_name(clients@, clients@.len() as int, id),
{
    let mut k = clients.len();
    while k > 0
        invariant
            k <= clients@.len(),
            client_name(clients@, clients@.len() as int, id) == client_name(clients@, k as int, id),
        decreases k,
    {
        if clients[k - 1].id == id {
            return clients[k - 1].name.clone();
        }
        k = k - 1;
    }
    String::new()
}

fn hours_string(m: i32) -> (s: String)
    ensures
        s@ == hours_text(m as int),
{
    let a: u64 = if m < 0 {
        (-(m as i64)) as u64
    } else {
        m as u64
    };
    let h: u64 = (5 * a + 1) / 3;
    let mut v: Vec<char> = Vec::new();
    if m < 0 {
        v.push('-');
    }
    push_dec(&mut v, h / 100);
    v.push('.');
    push_pad2(&mut v, h % 100);
    let s = string_of(&v);
    assert(s@ =~= hours_text(m as int));
    s
}

fn int_string(i: i32) -> (s: String)
    ensures
        s@ == idec(i as int),
{
    let mut v: Vec<char> = Vec::new();
    push_idec(&mut v, i as i64);
    string_of(&v)
}

fn text_or_empty(o: &Option<String>) -> (s: String)
    ensures
        s@ == or_empty(opt_view(*o)),
{
    match o {
        Some(t) => t.clone(),
        None => String::new(),
    }
}

/// The fields of one entry's CSV record: date, client name (by id, empty when unknown),
/// start, end, duration in minutes, hours with two decimals and description.
pub fn entry_record(e: &TimeEntry, clients: &Vec<Client>) -> (fields: Vec<String>)
    ensures
        views(fields@) == entry_fields(*e, clients@),
{
    let fields = vec![
        e.date.clone(),
        lookup_name(clients, e.client_id),
        text_or_empty(&e.start_time),
        text_or_empty(&e.end_time),
        int_string(e.duration_minutes),
        hours_string(e.duration_minutes),
        e.description.clone(),
    ];
    assert(views(fields@) =~= entry_fields(*e, clients@));
    fields
}

fn io_error(msg: String) -> (e: AppError)
    ensures
        e@ == (ErrorKind::Io, msg@),
{
    AppError::Io(msg)
}

/// The CSV export of entries, which always succeeds: a header, then per entry its date, client name (by id, empty
/// when unknown), start, end, duration in minutes, hours with two decimals and description.
pub fn entries_to_csv(entries: &Vec<TimeEntry>, clients: &Vec<Client>) -> (r: Result<String, AppError>)
    ensures
        r matches Ok(s) && s@ == csv_text(entries@, clients@, entries@.len() as int),
{
    let header = vec![
        String::from_str("date"),
        String::from_str("client"),
        String::from_str("start"),
        String::from_str("end"),
        String::from_str("duration_minutes"),
        String::from_str("hours"),
        String::from_str("description"),
    ];
    assert(views(header@) =~= csv_header());
    let mut out: Vec<char> = Vec::new();
    match csv_line(&header) {
        Ok(line) => {
            let lv = crate::text::chars_of(line.as_str());
            crate::invoice::push_all(&mut out, &lv);
        },
        Err(msg) => {
            return Err(io_error(msg));
        },
    }
    for i in 0..entries.len()
        invariant
            out@ == csv_text(entries@, clients@, i as int),
    {
        let fields = entry_record(&entries[i], clients);
        match csv_line(&fields) {
            Ok(line) => {
                let lv = crate::text::chars_of(line.as_str());
                crate::invoice::push_all(&mut out, &lv);
            },
            Err(msg) => {
                return Err(io_error(msg));
            },
        }
    }
    Ok(string_of(&out))
}

} // verus!
