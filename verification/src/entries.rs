//! Time entries: the entry invariant (a required, bounded duration derived from start
//! and end when both are given) and the checks on client fields.

use vstd::prelude::*;
use crate::clock::{chrono_hm, chrono_ymd, hm_text, parse_hm, parse_ymd};
use crate::models::{opt_view, AppError, ClientInput, EntryFilter, EntryView, ErrorKind, TimeEntryInput};
use crate::text::{chars_of, dec, digit, idec, is_ws, lemma_trim_idempotent, lemma_trim_unchanged, pad2, push_dec, push_idec, push_pad2, push_str, string_of, trim, trim_chars, trim_str};

verus! {

/// The trimmed text of an optional field, or `None` when it is absent or blank.
pub open spec fn trimmed_opt(o: Option<Seq<char>>) -> Option<Seq<char>> {
    match o {
        Some(s) => if trim(s).len() > 0 {
            Some(trim(s))
        } else {
            None
        },
        None => None,
    }
}

pub open spec fn bad_date_msg(s: Seq<char>) -> Seq<char> {
    "Invalid date '"@ + s + "', expected YYYY-MM-DD"@
}

pub open spec fn bad_time_msg(s: Seq<char>) -> Seq<char> {
    "Invalid time '"@ + s + "', expected HH:MM"@
}

/// Minutes from a start clock time to an end clock time, wrapping past midnight:
/// an end at or before the start counts as the next day.
pub open spec fn span_minutes(sh: u32, sm: u32, eh: u32, em: u32) -> int {
    let d = (eh * 60 + em) - (sh * 60 + sm);
    if d <= 0 {
        d + 1440
    } else {
        d
    }
}

/// What parsing an optional time field gives: `None` when it is absent or blank,
/// otherwise chrono's reading of the trimmed text.
pub open spec fn parsed_field(o: Option<Seq<char>>) -> Option<Option<(u32, u32)>> {
    match trimmed_opt(o) {
        Some(s) => Some(chrono_hm(s)),
        None => None,
    }
}

/// The canonical "HH:MM" text of a parsed time field.
pub open spec fn canonical(p: Option<Option<(u32, u32)>>) -> Option<Seq<char>> {
    match p {
        Some(Some((h, m))) => Some(hm_text(h, m)),
        _ => None,
    }
}

/// The duration an entry ends up with, given its parsed fields: derived from start and end
/// when both are present, otherwise the one that was entered.
pub open spec fn duration_from(e: EntryView, sp: Option<Option<(u32, u32)>>, ep: Option<Option<(u32, u32)>>) -> int {
    match (sp, ep) {
        (Some(Some((sh, sm))), Some(Some((eh, em)))) => span_minutes(sh, sm, eh, em),
        _ => e.duration_minutes as int,
    }
}

/// What normalising an entry gives once its date has been checked (`date_ok`) and its
/// present time fields parsed (`sp`, `ep`): the error with its message, or the entry.
pub open spec fn normalized_from(
    e: EntryView,
    date_ok: bool,
    sp: Option<Option<(u32, u32)>>,
    ep: Option<Option<(u32, u32)>>,
) -> Result<EntryView, (ErrorKind, Seq<char>)> {
    if !date_ok {
        Err((ErrorKind::Validation, bad_date_msg(e.date)))
    } else if sp == Some(None::<(u32, u32)>) {
        Err((ErrorKind::Validation, bad_time_msg(trimmed_opt(e.start_time)->0)))
    } else if ep == Some(None::<(u32, u32)>) {
        Err((ErrorKind::Validation, bad_time_msg(trimmed_opt(e.end_time)->0)))
    } else if duration_from(e, sp, ep) <= 0 {
        Err((ErrorKind::Validation, "Duration must be greater than zero"@))
    } else if duration_from(e, sp, ep) > 24 * 60 {
        Err((ErrorKind::Validation, "Duration can't exceed 24 hours"@))
    } else {
        Ok(
            EntryView {
                client_id: e.client_id,
                date: e.date,
                duration_minutes: duration_from(e, sp, ep) as i32,
                start_time: canonical(sp),
                end_time: canonical(ep),
                description: trim(e.description),
            },
        )
    }
}

/// What normalising an entry gives: the error with its message, or the normalised entry.
pub open spec fn normalized(e: EntryView) -> Result<EntryView, (ErrorKind, Seq<char>)> {
    normalized_from(e, chrono_ymd(e.date) is Some, parsed_field(e.start_time), parsed_field(e.end_time))
}

/// A parsed time field holds a valid clock time.
pub open spec fn clock_ok(p: Option<Option<(u32, u32)>>) -> bool {
    p matches Some(Some((h, m))) ==> h < 24 && m < 60
}

/// Builds "<prefix><middle><suffix>" as an error message.
fn message(prefix: &str, middle: &str, suffix: &str) -> (m: String)
    ensures
        m@ == prefix@ + middle@ + suffix@,
{
    let mut v: Vec<char> = Vec::new();
    push_str(&mut v, prefix);
    push_str(&mut v, middle);
    push_str(&mut v, suffix);
    string_of(&v)
}

/// Checks that a date reads as YYYY-MM-DD.
pub fn parse_date(s: &str) -> (r: Result<(i32, u32, u32), AppError>)
    ensures
        match r {
            Ok(d) => chrono_ymd(s@) == Some(d),
            Err(e) => chrono_ymd(s@) is None && e@ == (ErrorKind::Validation, bad_date_msg(s@)),
        },
{
    match parse_ymd(s) {
        Some(d) => Ok(d),
        None => Err(AppError::Validation(message("Invalid date '", s, "', expected YYYY-MM-DD"))),
    }
}

/// Checks that a time reads as HH:MM.
pub fn parse_time(s: &str) -> (r: Result<(u32, u32), AppError>)
    ensures
        match r {
            Ok(t) => chrono_hm(s@) == Some(t) && t.0 < 24 && t.1 < 60,
            Err(e) => chrono_hm(s@) is None && e@ == (ErrorKind::Validation, bad_time_msg(s@)),
        },
{
    match parse_hm(s) {
        Some(t) => Ok(t),
        None => Err(AppError::Validation(message("Invalid time '", s, "', expected HH:MM"))),
    }
}

/// A decimal digit is not whitespace.
proof fn lemma_digit_not_ws(d: nat)
    requires
        d < 10,
    ensures
        !is_ws(digit(d)),
{
    assert((((48 + d) as u32) as char) as u32 == 48 + d);
}

/// Two zero-padded digits start and end with a digit.
proof fn lemma_pad2_ends(n: nat)
    requires
        n < 100,
    ensures
        pad2(n).len() == 2,
        !is_ws(pad2(n)[0]),
        !is_ws(pad2(n)[1]),
{
    if n < 10 {
        lemma_digit_not_ws(n);
        assert(!is_ws('0'));
    } else {
        assert(dec(n / 10) == seq![digit(n / 10)]);
        lemma_digit_not_ws(n / 10);
        lemma_digit_not_ws(n % 10);
    }
}

/// The "HH:MM" text of a clock time carries no surrounding whitespace.
proof fn lemma_hm_text_trimmed(h: u32, m: u32)
    requires
        h < 24,
        m < 60,
    ensures
        hm_text(h, m).len() == 5,
        trim(hm_text(h, m)) == hm_text(h, m),
{
    lemma_pad2_ends(h as nat);
    lemma_pad2_ends(m as nat);
    let t = hm_text(h, m);
    assert(t[0] == pad2(h as nat)[0]);
    assert(t[4] == pad2(m as nat)[1]);
    lemma_trim_unchanged(t);
}

/// Writes a clock time as "HH:MM" and reads the text back with chrono, which gives the
/// same time.
fn format_hm(h: u32, m: u32) -> (s: String)
    requires
        h < 24,
        m < 60,
    ensures
        s@ == hm_text(h, m),
        chrono_hm(s@) == Some((h, m)),
{
    let mut v: Vec<char> = Vec::new();
    push_pad2(&mut v, h as u64);
    v.push(':');
    push_pad2(&mut v, m as u64);
    let s = string_of(&v);
    let read_back = parse_hm(s.as_str());
    assert(s@ == hm_text(h, m));
    assert(read_back == Some((h, m)));
    s
}

fn trimmed_field(o: &Option<String>) -> (r: Option<String>)
    ensures
        opt_view(r) == trimmed_opt(opt_view(*o)),
{
    match o {
        Some(s) => {
            let t = trim_chars(&chars_of(s.as_str()));
            if t.len() > 0 {
                Some(string_of(&t))
            } else {
                None
            }
        },
        None => None,
    }
}

fn parse_field(f: &Option<String>) -> (r: Option<Option<(u32, u32)>>)
    ensures
        r == parsed_field(opt_view(*f)),
        clock_ok(r),
{
    match trimmed_field(f) {
        Some(t) => Some(parse_hm(t.as_str())),
        None => None,
    }
}

/// Normalises an entry whose date has been checked (`date_ok`) and whose present time
/// fields have been parsed (`start`, `end`: `None` for an absent or blank field).
pub fn normalize_parsed(
    input: &TimeEntryInput,
    date_ok: bool,
    start: Option<Option<(u32, u32)>>,
    end: Option<Option<(u32, u32)>>,
) -> (r: Result<TimeEntryInput, AppError>)
    requires
        (start is Some) == (trimmed_opt(opt_view(input.start_time)) is Some),
        (end is Some) == (trimmed_opt(opt_view(input.end_time)) is Some),
        clock_ok(start),
        clock_ok(end),
    ensures
        match r {
            Ok(out) => normalized_from(input@, date_ok, start, end) == Ok::<EntryView, (ErrorKind, Seq<char>)>(out@),
            Err(e) => normalized_from(input@, date_ok, start, end) == Err::<EntryView, (ErrorKind, Seq<char>)>(e@),
        },
        r is Ok ==> (start matches Some(Some((h, m))) ==> chrono_hm(hm_text(h, m)) == Some((h, m))),
        r is Ok ==> (end matches Some(Some((h, m))) ==> chrono_hm(hm_text(h, m)) == Some((h, m))),
{
    if !date_ok {
        return Err(AppError::Validation(message("Invalid date '", input.date.as_str(), "', expected YYYY-MM-DD")));
    }
    if let Some(None) = start {
        let t = trimmed_field(&input.start_time);
        match t {
            Some(s) => {
                return Err(AppError::Validation(message("Invalid time '", s.as_str(), "', expected HH:MM")));
            },
            None => {},
        }
    }
    if let Some(None) = end {
        let t = trimmed_field(&input.end_time);
        match t {
            Some(s) => {
                return Err(AppError::Validation(message("Invalid time '", s.as_str(), "', expected HH:MM")));
            },
            None => {},
        }
    }
    let duration: i32 = match (start, end) {
        (Some(Some((sh, sm))), Some(Some((eh, em)))) => {
            let mut mins: i32 = ((eh * 60 + em) as i32) - ((sh * 60 + sm) as i32);
            if mins <= 0 {
                mins = mins + 24 * 60;
            }
            mins
        },
        _ => input.duration_minutes,
    };
    if duration <= 0 {
        return Err(AppError::Validation(String::from_str("Duration must be greater than zero")));
    }
    if duration > 24 * 60 {
        return Err(AppError::Validation(String::from_str("Duration can't exceed 24 hours")));
    }
    let start_out = match start {
        Some(Some((h, m))) => Some(format_hm(h, m)),
        _ => None,
    };
    let end_out = match end {
        Some(Some((h, m))) => Some(format_hm(h, m)),
        _ => None,
    };
    Ok(TimeEntryInput {
        client_id: input.client_id,
        date: input.date.clone(),
        duration_minutes: duration,
        start_time: start_out,
        end_time: end_out,
        description: trim_str(input.description.as_str()),
    })
}

/// Applies the entry invariant: the date must read as YYYY-MM-DD; start and end are
/// trimmed, blank ones dropped, and the others must read as HH:MM and are rewritten
/// zero-padded; when both are given the duration is derived from them (wrapping past
/// midnight); the description is trimmed; the duration must then lie in 1..=1440 minutes.
///
/// A normalised entry is left as it is by normalising it again, and the times it holds
/// read back as clock times.
pub fn normalize_entry(input: &TimeEntryInput) -> (r: Result<TimeEntryInput, AppError>)
    ensures
        match r {
            Ok(out) => normalized(input@) == Ok::<EntryView, (ErrorKind, Seq<char>)>(out@),
            Err(e) => normalized(input@) == Err::<EntryView, (ErrorKind, Seq<char>)>(e@),
        },
        r matches Ok(out) ==> normalized(out@) == Ok::<EntryView, (ErrorKind, Seq<char>)>(out@),
        r matches Ok(out) ==> (out@.start_time matches Some(t) ==> (chrono_hm(t) matches Some((h, m)) && h < 24 && m < 60)),
        r matches Ok(out) ==> (out@.end_time matches Some(t) ==> (chrono_hm(t) matches Some((h, m)) && h < 24 && m < 60)),
{
    let date_ok = parse_ymd(input.date.as_str()).is_some();
    let start = parse_field(&input.start_time);
    let end = parse_field(&input.end_time);
    let r = normalize_parsed(input, date_ok, start, end);
    proof {
        if r is Ok {
            lemma_normalized_stable(input@, start, end);
        }
    }
    r
}

/// Normalising an entry that normalisation produced gives it back unchanged, provided the
/// "HH:MM" texts it wrote read back as the times they were written from.
proof fn lemma_normalized_stable(e: EntryView, sp: Option<Option<(u32, u32)>>, ep: Option<Option<(u32, u32)>>)
    requires
        chrono_ymd(e.date) is Some,
        normalized_from(e, true, sp, ep) is Ok,
        clock_ok(sp),
        clock_ok(ep),
        sp matches Some(Some((h, m))) ==> chrono_hm(hm_text(h, m)) == Some((h, m)),
        ep matches Some(Some((h, m))) ==> chrono_hm(hm_text(h, m)) == Some((h, m)),
    ensures
        normalized(normalized_from(e, true, sp, ep)->Ok_0) == normalized_from(e, true, sp, ep),
        normalized_from(e, true, sp, ep)->Ok_0.start_time == canonical(sp),
        normalized_from(e, true, sp, ep)->Ok_0.end_time == canonical(ep),
{
    let o = normalized_from(e, true, sp, ep)->Ok_0;
    match sp {
        Some(Some((h, m))) => lemma_hm_text_trimmed(h, m),
        _ => {},
    }
    match ep {
        Some(Some((h, m))) => lemma_hm_text_trimmed(h, m),
        _ => {},
    }
    assert(parsed_field(o.start_time) == sp);
    assert(parsed_field(o.end_time) == ep);
    lemma_trim_idempotent(e.description);
    assert(duration_from(o, sp, ep) == duration_from(e, sp, ep));
}

/// An ASCII letter.
pub open spec fn is_ascii_letter(c: char) -> bool {
    ('a' <= c && c <= 'z') || ('A' <= c && c <= 'Z')
}

/// A currency code: three ASCII letters once trimmed.
pub open spec fn valid_currency(s: Seq<char>) -> bool {
    let t = trim(s);
    t.len() == 3 && forall|i: int| 0 <= i < 3 ==> is_ascii_letter(#[trigger] t[i])
}

/// What checking a client's fields gives: the first failing rule's message, or nothing.
pub open spec fn client_check(
    name: Seq<char>,
    rate_negative: bool,
    vat_rate: i32,
    pensum_percent: i32,
    currency: Seq<char>,
) -> Option<Seq<char>> {
    if trim(name).len() == 0 {
        Some("Client name is required"@)
    } else if rate_negative {
        Some("Hourly rate can't be negative"@)
    } else if !(0 <= vat_rate <= 100) {
        Some("VAT rate must be between 0 and 100"@)
    } else if !(0 <= pensum_percent <= 100) {
        Some("Pensum must be between 0 and 100"@)
    } else if !valid_currency(currency) {
        Some("Currency must be a 3-letter code like CZK or EUR"@)
    } else {
        None
    }
}

/// Checks a client's fields: a name, a non-negative hourly rate (whether it is negative is
/// given), a VAT rate in 0..=100, a workload share (pensum) in 0..=100 percent and a
/// three-letter currency code.
pub fn validate_client(input: &ClientInput, hourly_rate_negative: bool) -> (r: Result<(), AppError>)
    ensures
        match client_check(input.name@, hourly_rate_negative, input.vat_rate, input.pensum_percent, input.currency@) {
            Some(m) => r matches Err(e) && e@ == (ErrorKind::Validation, m),
            None => r is Ok,
        },
{
    if trim_chars(&chars_of(input.name.as_str())).len() == 0 {
        return Err(AppError::Validation(String::from_str("Client name is required")));
    }
    if hourly_rate_negative {
        return Err(AppError::Validation(String::from_str("Hourly rate can't be negative")));
    }
    if !(0 <= input.vat_rate && input.vat_rate <= 100) {
        return Err(AppError::Validation(String::from_str("VAT rate must be between 0 and 100")));
    }
    if !(0 <= input.pensum_percent && input.pensum_percent <= 100) {
        return Err(AppError::Validation(String::from_str("Pensum must be between 0 and 100")));
    }
    let cur = trim_chars(&chars_of(input.currency.as_str()));
    let mut ok = cur.len() == 3;
    if ok {
        let mut i: usize = 0;
        while i < 3
            invariant
                cur@.len() == 3,
                i <= 3,
                ok == forall|q: int| 0 <= q < i ==> is_ascii_letter(#[trigger] cur@[q]),
            decreases 3 - i,
        {
            let c = cur[i];
            let letter = ('a' <= c && c <= 'z') || ('A' <= c && c <= 'Z');
            ok = ok && letter;
            i = i + 1;
        }
    }
    if !ok {
        return Err(AppError::Validation(String::from_str("Currency must be a 3-letter code like CZK or EUR")));
    }
    Ok(())
}

/// The upper-case form of an ASCII letter.
pub open spec fn ascii_upper(c: char) -> char {
    if 'a' <= c && c <= 'z' {
        ((c as u32) - 32) as char
    } else {
        c
    }
}

/// The stored form of a valid currency code: trimmed and upper-cased.
pub fn currency_code(currency: &str) -> (code: String)
    requires
        valid_currency(currency@),
    ensures
        code@ == Seq::new(3, |i: int| ascii_upper(trim(currency@)[i])),
{
    let t = trim_chars(&chars_of(currency));
    let mut out: Vec<char> = Vec::new();
    for i in 0..3usize
        invariant
            t@ == trim(currency@),
            t@.len() == 3,
            out@ == Seq::new(i as nat, |k: int| ascii_upper(t@[k])),
    {
        let c = t[i];
        let u = if 'a' <= c && c <= 'z' {
            char_from_code((c as u32) - 32)
        } else {
            c
        };
        out.push(u);
        assert(out@ =~= Seq::new((i + 1) as nat, |k: int| ascii_upper(t@[k])));
    }
    string_of(&out)
}

fn char_from_code(u: u32) -> (c: char)
    requires
        0x41 <= u <= 0x5a,
    ensures
        c == u as char,
{
    if u == 0x41 { 'A' } else if u == 0x42 { 'B' } else if u == 0x43 { 'C' } else if u == 0x44 { 'D' }
    else if u == 0x45 { 'E' } else if u == 0x46 { 'F' } else if u == 0x47 { 'G' } else if u == 0x48 { 'H' }
    else if u == 0x49 { 'I' } else if u == 0x4a { 'J' } else if u == 0x4b { 'K' } else if u == 0x4c { 'L' }
    else if u == 0x4d { 'M' } else if u == 0x4e { 'N' } else if u == 0x4f { 'O' } else if u == 0x50 { 'P' }
    else if u == 0x51 { 'Q' } else if u == 0x52 { 'R' } else if u == 0x53 { 'S' } else if u == 0x54 { 'T' }
    else if u == 0x55 { 'U' } else if u == 0x56 { 'V' } else if u == 0x57 { 'W' } else if u == 0x58 { 'X' }
    else if u == 0x59 { 'Y' } else { 'Z' }
}

/// A client that still has time entries cannot be deleted.
pub fn check_deletable(used: i32) -> (r: Result<(), AppError>)
    ensures
        used <= 0 ==> r is Ok,
        used > 0 ==> (r matches Err(e) && e@ == (
            ErrorKind::Validation,
            "Client has "@ + idec(used as int) + " time entries. Archive it instead, or delete the entries first."@,
        )),
{
    if used > 0 {
        let mut v: Vec<char> = Vec::new();
        push_str(&mut v, "Client has ");
        push_idec(&mut v, used as i64);
        push_str(&mut v, " time entries. Archive it instead, or delete the entries first.");
        return Err(AppError::Validation(string_of(&v)));
    }
    Ok(())
}

/// A parameter of the entry query.
#[derive(Debug, Clone)]
pub enum SqlArg {
    Int(i32),
    Text(String),
}

/// The view of a query parameter.
pub enum SqlArgView {
    Int(i32),
    Text(Seq<char>),
}

impl View for SqlArg {
    type V = SqlArgView;

    open spec fn view(&self) -> SqlArgView {
        match self {
            SqlArg::Int(i) => SqlArgView::Int(*i),
            SqlArg::Text(s) => SqlArgView::Text(s@),
        }
    }
}

/// The parameters of the entry query for a filter: the client, then the non-empty bounds.
pub open spec fn filter_args(f: EntryFilter) -> Seq<SqlArgView> {
    let a = match f.client_id {
        Some(c) => seq![SqlArgView::Int(c)],
        None => Seq::empty(),
    };
    let b = match opt_view(f.from) {
        Some(s) => if s.len() > 0 { a.push(SqlArgView::Text(s)) } else { a },
        None => a,
    };
    match opt_view(f.to) {
        Some(s) => if s.len() > 0 { b.push(SqlArgView::Text(s)) } else { b },
        None => b,
    }
}

/// The WHERE clause of the entry query for a filter, each condition numbered after its
/// parameter.
pub open spec fn filter_where(f: EntryFilter) -> Seq<char> {
    let a = match f.client_id {
        Some(c) => " AND client_id = ?1"@,
        None => Seq::empty(),
    };
    let na: nat = if f.client_id is Some { 1 } else { 0 };
    let from_given = opt_view(f.from) matches Some(s) && s.len() > 0;
    let b = if from_given { " AND date >= ?"@ + dec(na + 1) } else { Seq::empty() };
    let nb: nat = if from_given { na + 1 } else { na };
    let to_given = opt_view(f.to) matches Some(s) && s.len() > 0;
    let c = if to_given { " AND date <= ?"@ + dec(nb + 1) } else { Seq::empty() };
    "1=1"@ + a + b + c
}

fn nonempty(o: &Option<String>) -> (r: Option<String>)
    ensures
        opt_view(r) == (match opt_view(*o) {
            Some(s) => if s.len() > 0 { Some(s) } else { None },
            None => None,
        }),
{
    match o {
        Some(s) => if chars_of(s.as_str()).len() > 0 { Some(s.clone()) } else { None },
        None => None,
    }
}

/// The WHERE clause and parameters of the entry query for a filter.
pub fn filter_sql(filter: &EntryFilter) -> (r: (String, Vec<SqlArg>))
    ensures
        r.0@ == filter_where(*filter),
        r.1@.len() == filter_args(*filter).len(),
        forall|i: int| 0 <= i < r.1@.len() ==> (#[trigger] r.1@[i])@ == filter_args(*filter)[i],
{
    let mut sql: Vec<char> = Vec::new();
    let mut args: Vec<SqlArg> = Vec::new();
    push_str(&mut sql, "1=1");
    proof {
        reveal_strlit("1=1");
    }
    let ghost f = *filter;
    let ghost s0 = sql@;
    match filter.client_id {
        Some(c) => {
            args.push(SqlArg::Int(c));
            push_str(&mut sql, " AND client_id = ?1");
        },
        None => {},
    }
    let ghost s1 = sql@;
    let ghost a1 = args@;
    match nonempty(&filter.from) {
        Some(s) => {
            args.push(SqlArg::Text(s));
            push_str(&mut sql, " AND date >= ?");
            push_dec(&mut sql, args.len() as u64);
        },
        None => {},
    }
    let ghost s2 = sql@;
    let ghost a2 = args@;
    match nonempty(&filter.to) {
        Some(s) => {
            args.push(SqlArg::Text(s));
            push_str(&mut sql, " AND date <= ?");
            push_dec(&mut sql, args.len() as u64);
        },
        None => {},
    }
    assert(sql@ =~= filter_where(f));
    assert forall|i: int| 0 <= i < args@.len() implies (#[trigger] args@[i])@ == filter_args(f)[i] by {
        if i < a1.len() {
            assert(args@[i] == a1[i]);
        } else if i < a2.len() {
            assert(args@[i] == a2[i]);
        }
    }
    (string_of(&sql), args)
}

/// A span between two clock times lies in 1..=1440 minutes.
pub proof fn law_span_bounds(sh: u32, sm: u32, eh: u32, em: u32)
    requires
        sh < 24 && sm < 60 && eh < 24 && em < 60,
    ensures
        1 <= span_minutes(sh, sm, eh, em) <= 1440,
{
}

/// A normalised entry satisfies the entry invariant: its duration lies in 1..=1440 minutes,
/// its description carries no surrounding whitespace, and client and date are kept.
/// When the date is valid and a start and an end are both given and valid, normalising
/// succeeds whatever duration was entered, with the duration derived from them.
pub proof fn law_entry_invariant(e: EntryView)
    ensures
        normalized(e) matches Ok(o) ==> {
            &&& 1 <= o.duration_minutes <= 24 * 60
            &&& trim(o.description) == o.description
            &&& o.client_id == e.client_id
            &&& o.date == e.date
        },
        chrono_ymd(e.date) is Some ==> match (trimmed_opt(e.start_time), trimmed_opt(e.end_time)) {
            (Some(s), Some(t)) => match (chrono_hm(s), chrono_hm(t)) {
                (Some((sh, sm)), Some((eh, em))) => (sh < 24 && sm < 60 && eh < 24 && em < 60) ==> (normalized(e) matches Ok(o)
                    && o.duration_minutes as int == span_minutes(sh, sm, eh, em)),
                _ => true,
            },
            _ => true,
        },
{
    lemma_trim_idempotent(e.description);
}

} // verus!
