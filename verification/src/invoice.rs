//! Invoice arithmetic and texts: billed half-hours, the period label, the invoice line
//! name, what an invoice body is made of, and the preview of a filtered list of entries.

use vstd::prelude::*;
use crate::clock::{chrono_ymd, dmy_text, month_text, parse_ymd, push_dmy, push_month};
use crate::models::{opt_view, AppError, Client, EntryFilter, ErrorKind, TimeEntry};
use crate::text::{chars_of, lemma_text_lt_asymmetric, lemma_text_lt_total, lemma_text_lt_transitive, push_str, string_of, text_lt, trim, trim_chars, str_lt};

verus! {

/// Billed half-hours for a number of minutes: rounded up to the next half hour; nothing
/// for zero or negative minutes.
pub open spec fn half_hours(minutes: int) -> int {
    if minutes <= 0 {
        0
    } else {
        (minutes + 29) / 30
    }
}

/// Total minutes -> half-hours, always rounded up (hours are half of this count).
pub fn half_hours_rounded_up(minutes: i64) -> (h: i64)
    ensures
        h == half_hours(minutes as int),
{
    if minutes <= 0 {
        0
    } else {
        (minutes - 1) / 30 + 1
    }
}

/// Billing rounds up to whole half hours: a positive number of minutes is covered by its
/// half-hours and by no fewer, and more minutes never bill fewer half-hours.
pub proof fn law_half_hours_round_up(m: int, m2: int)
    ensures
        m > 0 ==> 30 * (half_hours(m) - 1) < m <= 30 * half_hours(m),
        m <= 0 ==> half_hours(m) == 0,
        m <= m2 ==> half_hours(m) <= half_hours(m2),
{
    if m <= m2 && m > 0 {
        assert((m + 29) / 30 <= (m2 + 29) / 30) by (nonlinear_arith)
            requires
                m <= m2,
                m > 0,
        {
        }
    }
}

/// The label of an invoice period: the month ("09/2026") when both ends fall in the
/// same month; otherwise both dates ("01.09.2026 – 15.10.2026"), or the one that reads as
/// a date ("from …", "until …"); empty when neither does.
/// The label of a period whose bounds read as the dates `from` and `to` (`None` for a
/// bound that is not a date).
pub open spec fn period_of(from: Option<(i32, u32, u32)>, to: Option<(i32, u32, u32)>) -> Seq<char> {
    match (from, to) {
        (Some((fy, fm, fd)), Some((ty, tm, td))) => if fy == ty && fm == tm {
            month_text(fy, fm)
        } else {
            dmy_text(fy, fm, fd) + " – "@ + dmy_text(ty, tm, td)
        },
        (Some((fy, fm, fd)), None) => "from "@ + dmy_text(fy, fm, fd),
        (None, Some((ty, tm, td))) => "until "@ + dmy_text(ty, tm, td),
        (None, None) => Seq::empty(),
    }
}

/// The label of the period between two date texts, each read by chrono as YYYY-MM-DD.
pub open spec fn period_text(from: Seq<char>, to: Seq<char>) -> Seq<char> {
    period_of(chrono_ymd(from), chrono_ymd(to))
}

/// The label of a period given its bounds as (year, month, day): the month ("09/2026")
/// when both fall in the same month, otherwise "01.09.2026 – 15.10.2026"; "from ..." or
/// "until ..." when one bound is missing, and empty when both are.
pub fn period_from_dates(from: Option<(i32, u32, u32)>, to: Option<(i32, u32, u32)>) -> (label: String)
    ensures
        label@ == period_of(from, to),
{
    let mut v: Vec<char> = Vec::new();
    match (from, to) {
        (Some((fy, fm, fd)), Some((ty, tm, td))) => {
            if fy == ty && fm == tm {
                push_month(&mut v, fy, fm);
            } else {
                push_dmy(&mut v, fy, fm, fd);
                push_str(&mut v, " – ");
                push_dmy(&mut v, ty, tm, td);
            }
        },
        (Some((fy, fm, fd)), None) => {
            push_str(&mut v, "from ");
            push_dmy(&mut v, fy, fm, fd);
        },
        (None, Some((ty, tm, td))) => {
            push_str(&mut v, "until ");
            push_dmy(&mut v, ty, tm, td);
        },
        (None, None) => {},
    }
    string_of(&v)
}

/// "09/2026" when the range sits inside one month, otherwise "01.09.2026 – 15.10.2026";
/// a bound that does not read as YYYY-MM-DD counts as missing.
pub fn period_label(from: &str, to: &str) -> (label: String)
    ensures
        label@ == period_text(from@, to@),
{
    period_from_dates(parse_ymd(from), parse_ymd(to))
}

/// `s` with every occurrence of `pat` replaced by `rep`, scanning left to right without
/// overlaps (as `str::replace` does for a non-empty pattern).
pub open spec fn replace_all(s: Seq<char>, pat: Seq<char>, rep: Seq<char>) -> Seq<char>
    decreases s.len(),
{
    if pat.len() == 0 || s.len() < pat.len() {
        s
    } else if s.take(pat.len() as int) == pat {
        rep + replace_all(s.skip(pat.len() as int), pat, rep)
    } else {
        seq![s[0]] + replace_all(s.skip(1), pat, rep)
    }
}

fn starts_with_at(s: &Vec<char>, i: usize, pat: &Vec<char>) -> (r: bool)
    requires
        i + pat@.len() <= s@.len(),
    ensures
        r == (s@.skip(i as int).take(pat@.len() as int) == pat@),
{
    let mut k: usize = 0;
    let sl = s.len();
    while k < pat.len()
        invariant
            sl == s@.len(),
            i + pat@.len() <= s@.len(),
            k <= pat@.len(),
            forall|q: int| 0 <= q < k ==> s@[i + q] == pat@[q],
        decreases pat@.len() - k,
    {
        if s[i + k] != pat[k] {
            assert(s@.skip(i as int).take(pat@.len() as int)[k as int] != pat@[k as int]);
            return false;
        }
        k = k + 1;
    }
    assert(s@.skip(i as int).take(pat@.len() as int) =~= pat@);
    true
}

/// Appends every character of `v`.
pub fn push_all(out: &mut Vec<char>, v: &Vec<char>)
    ensures
        final(out)@ == old(out)@ + v@,
{
    let ghost start = out@;
    for i in 0..v.len()
        invariant
            out@ == start + v@.take(i as int),
    {
        out.push(v[i]);
        assert(out@ =~= start + v@.take(i + 1));
    }
    assert(v@.take(v@.len() as int) =~= v@);
}

/// Replaces every occurrence of `pat` (non-empty) in `s` by `rep`.
pub fn replace_chars(s: &Vec<char>, pat: &Vec<char>, rep: &Vec<char>) -> (r: Vec<char>)
    requires
        pat@.len() > 0,
    ensures
        r@ == replace_all(s@, pat@, rep@),
{
    let n = s.len();
    let p = pat.len();
    let mut out: Vec<char> = Vec::new();
    let mut i: usize = 0;
    assert(s@.skip(0) =~= s@);
    while i < n
        invariant
            n == s@.len(),
            p == pat@.len(),
            p > 0,
            i <= n,
            out@ + replace_all(s@.skip(i as int), pat@, rep@) == replace_all(s@, pat@, rep@),
        decreases n - i,
    {
        let ghost rest = s@.skip(i as int);
        let ghost before = out@;
        if p <= n - i && starts_with_at(s, i, pat) {
            push_all(&mut out, rep);
            assert(rest.skip(p as int) =~= s@.skip(i + p));
            assert(replace_all(rest, pat@, rep@) == rep@ + replace_all(rest.skip(p as int), pat@, rep@));
            assert(out@ + replace_all(s@.skip(i + p), pat@, rep@) =~= before + replace_all(rest, pat@, rep@));
            i = i + p;
        } else {
            assert(rest.skip(1) =~= s@.skip(i + 1));
            out.push(s[i]);
            if p <= n - i {
                assert(replace_all(rest, pat@, rep@) == seq![rest[0]] + replace_all(rest.skip(1), pat@, rep@));
            } else {
                assert(replace_all(rest, pat@, rep@) == rest);
                assert(replace_all(rest.skip(1), pat@, rep@) == rest.skip(1));
            }
            assert(out@ + replace_all(s@.skip(i + 1), pat@, rep@) =~= before + replace_all(rest, pat@, rep@));
            i = i + 1;
        }
    }
    assert(s@.skip(n as int) =~= Seq::<char>::empty());
    out
}

/// The invoice line name of a client: its line description with "{period}" replaced by
/// the period label, trimmed.
pub open spec fn line_text(description: Seq<char>, period: Seq<char>) -> Seq<char> {
    trim(replace_all(description, "{period}"@, period))
}

pub fn line_name(client: &Client, period: &str) -> (name: String)
    ensures
        name@ == line_text(client.line_description@, period@),
{
    let pat = chars_of("{period}");
    proof {
        reveal_strlit("{period}");
    }
    let replaced = replace_chars(&chars_of(client.line_description.as_str()), &pat, &chars_of(period));
    string_of(&trim_chars(&replaced))
}

/// The invoice-level fields copied from a generator, in this order.
pub open spec fn generator_fields() -> Seq<Seq<char>> {
    seq![
        "currency"@,
        "payment_method"@,
        "language"@,
        "vat_price_mode"@,
        "bank_account_id"@,
        "due"@,
        "note"@,
        "footer_note"@,
        "tags"@,
        "transferred_tax_liability"@,
        "supply_code"@,
        "round_total"@,
    ]
}

pub fn generator_field_names() -> (v: Vec<&'static str>)
    ensures
        v@.len() == generator_fields().len(),
        forall|i: int| 0 <= i < v@.len() ==> (#[trigger] v@[i])@ == generator_fields()[i],
{
    let v = vec![
        "currency",
        "payment_method",
        "language",
        "vat_price_mode",
        "bank_account_id",
        "due",
        "note",
        "footer_note",
        "tags",
        "transferred_tax_liability",
        "supply_code",
        "round_total",
    ];
    assert(v@.len() == 12);
    v
}

/// What an invoice body needs from a generator: the keys of its JSON object whose values
/// are not null (none when it is not an object), and its "subject_id" when that is an
/// integer.
#[derive(Debug, Clone)]
pub struct GeneratorInfo {
    pub non_null_keys: Vec<String>,
    pub subject_id: Option<i64>,
}

/// The key list holds `k`.
pub open spec fn has_key(keys: Seq<String>, k: Seq<char>) -> bool {
    exists|j: int| 0 <= j < keys.len() && (#[trigger] keys[j])@ == k
}

/// The generator fields among the first `n` that the generator holds, in field order.
pub open spec fn copied_fields(keys: Seq<String>, n: int) -> Seq<Seq<char>>
    decreases n,
{
    if n <= 0 {
        Seq::empty()
    } else if has_key(keys, generator_fields()[n - 1]) {
        copied_fields(keys, n - 1).push(generator_fields()[n - 1])
    } else {
        copied_fields(keys, n - 1)
    }
}

/// The unit an invoice line is billed in.
pub const INVOICE_UNIT_NAME: &'static str = "h";

/// What goes into an invoice body besides the hours and the rate: the generator fields to
/// copy, the subject, the currency, and the line's name, unit and VAT rate.
#[derive(Debug, Clone)]
pub struct InvoicePlan {
    pub copy_fields: Vec<String>,
    pub subject_id: Option<i32>,
    pub currency: String,
    pub line_name: String,
    pub unit_name: String,
    pub vat_rate: i32,
}

/// The subject an invoice is addressed to: the client's, else the generator's (as `i32`).
pub open spec fn plan_subject(client: Client, generator: Option<GeneratorInfo>) -> Option<i32> {
    match client.fakturoid_subject_id {
        Some(s) => Some(s),
        None => match generator {
            Some(g) => match g.subject_id {
                Some(v) => Some(v as i32),
                None => None,
            },
            None => None,
        },
    }
}

fn contains_key(keys: &Vec<String>, k: &str) -> (r: bool)
    ensures
        r == has_key(keys@, k@),
{
    let key = String::from_str(k);
    for j in 0..keys.len()
        invariant
            key@ == k@,
            forall|q: int| 0 <= q < j ==> (#[trigger] keys@[q])@ != k@,
    {
        if keys[j] == key {
            return true;
        }
    }
    false
}

/// Plans the POST /invoices.json body: the invoice-level fields to copy from the generator
/// (when there is one), the subject (the client's wins over the generator's), the client's
/// currency (it wins over a copied one), and one line named after the period at the
/// client's VAT rate.
pub fn plan_invoice_body(client: &Client, generator: Option<&GeneratorInfo>, period: &str) -> (plan: InvoicePlan)
    ensures
        plan.copy_fields@.len() == (match generator {
            Some(g) => copied_fields(g.non_null_keys@, generator_fields().len() as int),
            None => Seq::<Seq<char>>::empty(),
        }).len(),
        forall|i: int|
            0 <= i < plan.copy_fields@.len() ==> (#[trigger] plan.copy_fields@[i])@ == (match generator {
                Some(g) => copied_fields(g.non_null_keys@, generator_fields().len() as int),
                None => Seq::<Seq<char>>::empty(),
            })[i],
        plan.subject_id == plan_subject(*client, match generator {
            Some(g) => Some(*g),
            None => None,
        }),
        plan.currency@ == client.currency@,
        plan.line_name@ == line_text(client.line_description@, period@),
        plan.unit_name@ == INVOICE_UNIT_NAME@,
        plan.vat_rate == client.vat_rate,
{
    let mut copy: Vec<String> = Vec::new();
    match generator {
        Some(g) => {
            let fields = generator_field_names();
            for i in 0..fields.len()
                invariant
                    fields@.len() == generator_fields().len(),
                    forall|q: int| 0 <= q < fields@.len() ==> (#[trigger] fields@[q])@ == generator_fields()[q],
                    copy@.len() == copied_fields(g.non_null_keys@, i as int).len(),
                    forall|q: int|
                        0 <= q < copy@.len() ==> (#[trigger] copy@[q])@ == copied_fields(g.non_null_keys@, i as int)[q],
            {
                if contains_key(&g.non_null_keys, fields[i]) {
                    copy.push(String::from_str(fields[i]));
                }
            }
        },
        None => {},
    }
    let subject_id = match client.fakturoid_subject_id {
        Some(s) => Some(s),
        None => match generator {
            Some(g) => match g.subject_id {
                Some(v) => Some(
                    #[verifier::truncate]
                    (v as i32),
                ),
                None => None,
            },
            None => None,
        },
    };
    InvoicePlan {
        copy_fields: copy,
        subject_id,
        currency: client.currency.clone(),
        line_name: line_name(client, period),
        unit_name: String::from_str(INVOICE_UNIT_NAME),
        vat_rate: client.vat_rate,
    }
}

/// The client an invoice is for, which the filter must name.
pub fn require_invoice_client(filter: &EntryFilter) -> (r: Result<i32, AppError>)
    ensures
        match filter.client_id {
            Some(id) => r == Ok::<i32, AppError>(id),
            None => (r matches Err(e) && e@ == (ErrorKind::Validation, "Pick a client to invoice"@)),
        },
{
    match filter.client_id {
        Some(id) => Ok(id),
        None => Err(AppError::Validation(String::from_str("Pick a client to invoice"))),
    }
}

/// Where an invoice for a client is issued: a client with neither a Fakturoid subject nor a
/// generator cannot be invoiced; otherwise the result is the generator to fetch first, if
/// the client has one.
pub fn invoice_target(client: &Client) -> (r: Result<Option<i32>, AppError>)
    ensures
        client.fakturoid_subject_id is None && client.fakturoid_generator_id is None ==> (r matches Err(e) && e@ == (
            ErrorKind::Validation,
            "Client has no Fakturoid subject or generator set. Configure it in Clients."@,
        )),
        client.fakturoid_subject_id is Some || client.fakturoid_generator_id is Some ==> r == Ok::<
            Option<i32>,
            AppError,
        >(client.fakturoid_generator_id),
{
    if client.fakturoid_subject_id.is_none() && client.fakturoid_generator_id.is_none() {
        return Err(AppError::Validation(String::from_str("Client has no Fakturoid subject or generator set. Configure it in Clients.")));
    }
    Ok(client.fakturoid_generator_id)
}

/// Sum of the durations of the first `n` entries.
pub open spec fn minutes_total(e: Seq<TimeEntry>, n: int) -> int
    decreases n,
{
    if n <= 0 {
        0
    } else {
        minutes_total(e, n - 1) + e[n - 1].duration_minutes
    }
}

/// The first `n` entries' durations, summed one by one, stay within `i32`.
pub open spec fn sum_fits(e: Seq<TimeEntry>, n: int) -> bool {
    forall|k: int| 0 <= k <= n ==> i32::MIN <= #[trigger] minutes_total(e, k) <= i32::MAX
}

/// Whether summing the entries' durations one by one stays within `i32`.
pub fn minutes_fit(entries: &Vec<TimeEntry>) -> (b: bool)
    ensures
        b == sum_fits(entries@, entries@.len() as int),
{
    let n = entries.len();
    let mut total: i64 = 0;
    for i in 0..n
        invariant
            n == entries@.len(),
            total == minutes_total(entries@, i as int),
            sum_fits(entries@, i as int),
    {
        let next = total + entries[i].duration_minutes as i64;
        if next < i32::MIN as i64 || next > i32::MAX as i64 {
            assert(!(i32::MIN <= minutes_total(entries@, i + 1) <= i32::MAX));
            return false;
        }
        total = next;
        assert forall|k: int| 0 <= k <= i + 1 implies i32::MIN <= #[trigger] minutes_total(entries@, k) <= i32::MAX by {
            if k <= i {
                assert(sum_fits(entries@, i as int));
            }
        }
    }
    true
}

/// The smallest date among the first `n >= 1` entries.
pub open spec fn min_date(e: Seq<TimeEntry>, n: int) -> Seq<char>
    decreases n,
{
    if n <= 1 {
        e[0].date@
    } else if text_lt(e[n - 1].date@, min_date(e, n - 1)) {
        e[n - 1].date@
    } else {
        min_date(e, n - 1)
    }
}

/// The largest date among the first `n >= 1` entries.
pub open spec fn max_date(e: Seq<TimeEntry>, n: int) -> Seq<char>
    decreases n,
{
    if n <= 1 {
        e[0].date@
    } else if text_lt(e[n - 1].date@, max_date(e, n - 1)) {
        max_date(e, n - 1)
    } else {
        e[n - 1].date@
    }
}

/// A filter bound when it is present and not empty.
pub open spec fn given_bound(o: Option<Seq<char>>) -> Option<Seq<char>> {
    match o {
        Some(s) => if s.len() > 0 {
            Some(s)
        } else {
            None
        },
        None => None,
    }
}

/// What an invoice preview shows besides the hours and the amount.
#[derive(Debug, Clone)]
pub struct PreviewSummary {
    pub client_id: i32,
    pub from: String,
    pub to: String,
    pub period_label: String,
    pub line_name: String,
    pub total_minutes: i32,
    pub currency: String,
    pub vat_rate: i32,
    pub entry_count: i32,
}

fn bound_or(o: &Option<String>, fallback: String) -> (r: String)
    ensures
        r@ == match given_bound(opt_view(*o)) {
            Some(s) => s,
            None => fallback@,
        },
{
    match o {
        Some(s) => {
            if chars_of(s.as_str()).len() > 0 {
                s.clone()
            } else {
                fallback
            }
        },
        None => fallback,
    }
}

/// Summarises the entries of an invoice: none is an error; otherwise the period runs from
/// the filter's bounds, or the earliest and latest entry dates where a bound is missing or
/// empty, and the line is named after that period.
pub fn preview_summary(client_id: i32, client: &Client, filter: &EntryFilter, entries: &Vec<TimeEntry>) -> (r: Result<PreviewSummary, AppError>)
    requires
        sum_fits(entries@, entries@.len() as int),
    ensures
        entries@.len() == 0 ==> (r matches Err(e) && e@ == (ErrorKind::Validation, "No time entries match the current filter"@)),
        entries@.len() > 0 ==> (r matches Ok(p) && {
            let from = match given_bound(opt_view(filter.from)) {
                Some(s) => s,
                None => min_date(entries@, entries@.len() as int),
            };
            let to = match given_bound(opt_view(filter.to)) {
                Some(s) => s,
                None => max_date(entries@, entries@.len() as int),
            };
            &&& p.client_id == client_id
            &&& p.from@ == from
            &&& p.to@ == to
            &&& p.period_label@ == period_text(from, to)
            &&& p.line_name@ == line_text(client.line_description@, period_text(from, to))
            &&& p.total_minutes == minutes_total(entries@, entries@.len() as int)
            &&& p.currency@ == client.currency@
            &&& p.vat_rate == client.vat_rate
            &&& p.entry_count == entries@.len() as i32
        }),
{
    let n = entries.len();
    if n == 0 {
        return Err(AppError::Validation(String::from_str("No time entries match the current filter")));
    }
    let mut total: i32 = 0;
    let mut lo = entries[0].date.clone();
    let mut hi = entries[0].date.clone();
    for i in 0..n
        invariant
            n == entries@.len(),
            n > 0,
            sum_fits(entries@, n as int),
            total == minutes_total(entries@, i as int),
            i > 0 ==> lo@ == min_date(entries@, i as int) && hi@ == max_date(entries@, i as int),
            i == 0 ==> lo@ == entries@[0].date@ && hi@ == entries@[0].date@,
    {
        assert(i32::MIN <= minutes_total(entries@, i + 1) <= i32::MAX);
        total = total + entries[i].duration_minutes;
        if i > 0 {
            if str_lt(entries[i].date.as_str(), lo.as_str()) {
                lo = entries[i].date.clone();
            }
            if !str_lt(entries[i].date.as_str(), hi.as_str()) {
                hi = entries[i].date.clone();
            }
        }
    }
    let from = bound_or(&filter.from, lo);
    let to = bound_or(&filter.to, hi);
    let label = period_label(from.as_str(), to.as_str());
    let line = line_name(client, label.as_str());
    Ok(PreviewSummary {
        client_id,
        from,
        to,
        period_label: label,
        line_name: line,
        total_minutes: total,
        currency: client.currency.clone(),
        vat_rate: client.vat_rate,
        entry_count: n as i32,
    })
}

/// The dates that bound an invoice period when the filter gives none are the earliest
/// and the latest entry dates: each is the date of one of the entries, no entry's date
/// comes before the earliest, and none comes after the latest.
pub proof fn law_period_from_entry_dates(e: Seq<TimeEntry>, n: int)
    requires
        1 <= n <= e.len(),
    ensures
        exists|i: int| 0 <= i < n && #[trigger] e[i].date@ == min_date(e, n),
        forall|i: int| 0 <= i < n ==> !text_lt(#[trigger] e[i].date@, min_date(e, n)),
        exists|i: int| 0 <= i < n && #[trigger] e[i].date@ == max_date(e, n),
        forall|i: int| 0 <= i < n ==> !text_lt(max_date(e, n), #[trigger] e[i].date@),
    decreases n,
{
    if n == 1 {
        assert(e[0].date@ == min_date(e, n));
        assert(e[0].date@ == max_date(e, n));
        lemma_text_lt_asymmetric(e[0].date@, e[0].date@);
        assert forall|i: int| 0 <= i < n implies !text_lt(#[trigger] e[i].date@, min_date(e, n)) by {
            assert(i == 0);
        }
        assert forall|i: int| 0 <= i < n implies !text_lt(max_date(e, n), #[trigger] e[i].date@) by {
            assert(i == 0);
        }
    } else {
        law_period_from_entry_dates(e, n - 1);
        let lo = min_date(e, n - 1);
        let hi = max_date(e, n - 1);
        let d = e[n - 1].date@;
        lemma_text_lt_asymmetric(d, d);
        lemma_text_lt_asymmetric(d, lo);
        lemma_text_lt_asymmetric(d, hi);
        lemma_text_lt_total(d, hi);
        if text_lt(d, lo) {
            assert(e[n - 1].date@ == min_date(e, n));
            assert forall|i: int| 0 <= i < n implies !text_lt(#[trigger] e[i].date@, min_date(e, n)) by {
                if i < n - 1 && text_lt(e[i].date@, d) {
                    lemma_text_lt_transitive(e[i].date@, d, lo);
                }
            }
        } else {
            let w = choose|i: int| 0 <= i < n - 1 && #[trigger] e[i].date@ == lo;
            assert(e[w].date@ == min_date(e, n));
            assert forall|i: int| 0 <= i < n implies !text_lt(#[trigger] e[i].date@, min_date(e, n)) by {
                if i < n - 1 {
                    assert(!text_lt(e[i].date@, lo));
                }
            }
        }
        if text_lt(d, hi) {
            let w = choose|i: int| 0 <= i < n - 1 && #[trigger] e[i].date@ == hi;
            assert(e[w].date@ == max_date(e, n));
            assert forall|i: int| 0 <= i < n implies !text_lt(max_date(e, n), #[trigger] e[i].date@) by {
                if i < n - 1 {
                    assert(!text_lt(hi, e[i].date@));
                }
            }
        } else {
            assert(e[n - 1].date@ == max_date(e, n));
            assert forall|i: int| 0 <= i < n implies !text_lt(max_date(e, n), #[trigger] e[i].date@) by {
                if i < n - 1 && text_lt(d, e[i].date@) {
                    if hi != d {
                        lemma_text_lt_transitive(hi, d, e[i].date@);
                    }
                }
            }
        }
    }
}

proof fn lemma_copied_fields(keys: Seq<String>, n: int, f: Seq<char>)
    requires
        0 <= n <= generator_fields().len(),
    ensures
        copied_fields(keys, n).contains(f) <==> (exists|j: int| 0 <= j < n && #[trigger] generator_fields()[j] == f) && has_key(keys, f),
    decreases n,
{
    if n > 0 {
        lemma_copied_fields(keys, n - 1, f);
        let prev = copied_fields(keys, n - 1);
        let g = generator_fields()[n - 1];
        if has_key(keys, g) {
            assert(copied_fields(keys, n) == prev.push(g));
            if prev.contains(f) {
                let k = choose|k: int| 0 <= k < prev.len() && prev[k] == f;
                assert(prev.push(g)[k] == f);
            }
            if g == f {
                assert(prev.push(g)[prev.len() as int] == f);
            }
            if copied_fields(keys, n).contains(f) && !prev.contains(f) {
                let k = choose|k: int| 0 <= k < prev.len() + 1 && prev.push(g)[k] == f;
                assert(k == prev.len());
            }
        }
        if (exists|j: int| 0 <= j < n && #[trigger] generator_fields()[j] == f) && !(exists|j: int|
            0 <= j < n - 1 && #[trigger] generator_fields()[j] == f) {
            let j = choose|j: int| 0 <= j < n && #[trigger] generator_fields()[j] == f;
            assert(j == n - 1);
        }
    }
}

/// The fields copied from a generator into an invoice body are exactly the generator
/// fields that the generator holds with a non-null value.
pub proof fn law_copied_fields_exact(keys: Seq<String>, f: Seq<char>)
    ensures
        copied_fields(keys, generator_fields().len() as int).contains(f) <==> (generator_fields().contains(f) && has_key(keys, f)),
{
    lemma_copied_fields(keys, generator_fields().len() as int, f);
    if generator_fields().contains(f) {
        let j = choose|j: int| 0 <= j < generator_fields().len() && generator_fields()[j] == f;
        assert(generator_fields()[j] == f);
    }
}

/// `x` comes before `y` in the generator field list.
pub open spec fn field_before(x: Seq<char>, y: Seq<char>) -> bool {
    exists|gi: int, gj: int|
        0 <= gi < gj < generator_fields().len() && #[trigger] generator_fields()[gi] == x && #[trigger] generator_fields()[gj]
            == y
}

proof fn lemma_copied_order(keys: Seq<String>, n: int)
    requires
        0 <= n <= generator_fields().len(),
    ensures
        forall|i: int|
            0 <= i < copied_fields(keys, n).len() ==> exists|g: int|
                0 <= g < n && #[trigger] generator_fields()[g] == #[trigger] copied_fields(keys, n)[i],
        forall|i: int, j: int|
            0 <= i < j < copied_fields(keys, n).len() ==> field_before(
                #[trigger] copied_fields(keys, n)[i],
                #[trigger] copied_fields(keys, n)[j],
            ),
    decreases n,
{
    if n > 0 {
        lemma_copied_order(keys, n - 1);
        let prev = copied_fields(keys, n - 1);
        let cur = copied_fields(keys, n);
        let g = generator_fields()[n - 1];
        if has_key(keys, g) {
            assert(cur == prev.push(g));
            assert forall|i: int| 0 <= i < cur.len() implies exists|q: int|
                0 <= q < n && #[trigger] generator_fields()[q] == #[trigger] cur[i] by {
                if i < prev.len() {
                    assert(cur[i] == prev[i]);
                    let q = choose|q: int| 0 <= q < n - 1 && #[trigger] generator_fields()[q] == prev[i];
                    assert(generator_fields()[q] == cur[i]);
                } else {
                    assert(generator_fields()[n - 1] == cur[i]);
                }
            }
            assert forall|i: int, j: int| 0 <= i < j < cur.len() implies field_before(#[trigger] cur[i], #[trigger] cur[j]) by {
                assert(cur[i] == prev[i]);
                if j < prev.len() {
                    assert(cur[j] == prev[j]);
                    assert(field_before(prev[i], prev[j]));
                } else {
                    let q = choose|q: int| 0 <= q < n - 1 && #[trigger] generator_fields()[q] == prev[i];
                    assert(generator_fields()[n - 1] == cur[j]);
                    assert(generator_fields()[q] == cur[i]);
                }
            }
        }
    }
}

/// The copied generator fields keep the order of the generator field list, each at most
/// once.
pub proof fn law_copied_fields_in_order(keys: Seq<String>)
    ensures
        forall|i: int, j: int|
            0 <= i < j < copied_fields(keys, generator_fields().len() as int).len() ==> field_before(
                #[trigger] copied_fields(keys, generator_fields().len() as int)[i],
                #[trigger] copied_fields(keys, generator_fields().len() as int)[j],
            ),
{
    lemma_copied_order(keys, generator_fields().len() as int);
}

} // verus!
