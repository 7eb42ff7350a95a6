//! What the language model is asked, which service it is asked through, and how its
//! answers become day summaries and time-entry suggestions.

use vstd::prelude::*;
use crate::activity::{aggregate, aggregate_of, describe_for_llm, digest_text, lemma_first_active_range, lemma_idle_total_bounds, lemma_last_active_range, now_ok, prefix_upto, samples_ok, sums_fit, Aggregate, Sample};
use crate::clock::{chrono_hm, format_hhmm, hhmm, parse_hm};
use crate::invoice::push_all;
use crate::models::{opt_view, AiProvider, AppError, ErrorKind, Suggestion};
use crate::settings::clamp;
use crate::text::{chars_of, push_str, string_of, trim, trim_chars};

verus! {

/// How the application reaches the language model.
#[derive(Debug, Clone)]
pub struct AiConfig {
    pub provider: AiProvider,
    pub model: String,
    pub base_url: Option<String>,
    pub api_key: Option<String>,
}

/// The model's summary of a day.
#[derive(Debug, Clone)]
pub struct DaySummaryOut {
    /// 2-4 concrete sentences in past tense describing what was worked on.
    pub description: String,
    /// Breakdown of active minutes by kind of work.
    pub tags: Vec<TagOut>,
}

/// One kind of work and its minutes.
#[derive(Debug, Clone)]
pub struct TagOut {
    /// Short lowercase tag, 1-2 words (e.g. "coding", "meetings", "code review").
    pub name: String,
    pub minutes: u32,
}

/// The model's proposal for a day's time entry.
#[derive(Debug, Clone)]
pub struct SuggestionOut {
    /// HH:MM when focused work started.
    pub start_time: String,
    /// HH:MM when focused work ended.
    pub end_time: String,
    /// Focused work minutes, excluding idle time and clearly non-work activity.
    pub duration_minutes: u32,
    /// One line, max 120 characters, past tense, suitable for an invoice worksheet.
    pub description: String,
}

pub open spec fn summary_preamble_head() -> Seq<char> {
    "You summarize one day of a freelance software developer's computer activity, given a log \
of focused windows (app name + window title) with minutes spent in each.\n\
Return two things.\n\
1. description: 2 to 4 sentences, past tense, concrete and specific (project names, repositories, \
PR numbers, topics, people). No filler, no judgement, no mention of the log itself.\n\
2. tags: split the day's active minutes into kinds of work. Existing tags: "@
}

pub open spec fn summary_preamble_tail() -> Seq<char> {
    ". Reuse an existing \
tag whenever it fits; create a new tag only when nothing fits. Tag names are lowercase, 1 to 2 words. \
Minutes across tags should add up to roughly the total active minutes. Use at most 6 tags."@
}

/// The first `n` texts joined with ", ".
pub open spec fn joined(v: Seq<String>, n: int) -> Seq<char>
    decreases n,
{
    if n <= 0 {
        Seq::empty()
    } else if n == 1 {
        v[0]@
    } else {
        joined(v, n - 1) + ", "@ + v[n - 1]@
    }
}

/// The existing tags as the preamble lists them.
pub open spec fn tags_text(tags: Seq<String>) -> Seq<char> {
    if tags.len() == 0 {
        "(none yet)"@
    } else {
        joined(tags, tags.len() as int)
    }
}

/// The instructions for summarising a day, naming the tags already in use.
pub fn day_summary_preamble(existing_tags: &Vec<String>) -> (p: String)
    ensures
        p@ == summary_preamble_head() + tags_text(existing_tags@) + summary_preamble_tail(),
{
    let mut v: Vec<char> = Vec::new();
    push_str(
        &mut v,
        "You summarize one day of a freelance software developer's computer activity, given a log \
of focused windows (app name + window title) with minutes spent in each.\n\
Return two things.\n\
1. description: 2 to 4 sentences, past tense, concrete and specific (project names, repositories, \
PR numbers, topics, people). No filler, no judgement, no mention of the log itself.\n\
2. tags: split the day's active minutes into kinds of work. Existing tags: ",
    );
    let ghost head = v@;
    if existing_tags.len() == 0 {
        push_str(&mut v, "(none yet)");
    } else {
        for i in 0..existing_tags.len()
            invariant
                existing_tags@.len() > 0,
                v@ == head + joined(existing_tags@, i as int),
        {
            if i > 0 {
                push_str(&mut v, ", ");
            }
            push_str(&mut v, existing_tags[i].as_str());
            assert(v@ =~= head + joined(existing_tags@, i + 1));
        }
    }
    push_str(
        &mut v,
        ". Reuse an existing \
tag whenever it fits; create a new tag only when nothing fits. Tag names are lowercase, 1 to 2 words. \
Minutes across tags should add up to roughly the total active minutes. Use at most 6 tags.",
    );
    string_of(&v)
}

pub open spec fn suggestion_preamble_text() -> Seq<char> {
    "You help a freelance software developer fill in a time entry for one day, given a log of \
focused windows (app name + window title) with minutes spent in each.\n\
Propose one time entry:\n\
- start_time: HH:MM when focused work began (ignore brief early checks of mail or chat).\n\
- end_time: HH:MM when focused work ended.\n\
- duration_minutes: minutes of actual work. Exclude idle time and clearly personal activity \
(music, personal browsing, news, social media). Meetings, code review, chat about work and \
documentation count as work.\n\
- description: one line, max 120 characters, past tense, concrete (what was built, fixed or \
discussed). It will be pasted into an invoice worksheet."@
}

/// The instructions for proposing a day's time entry.
pub fn suggestion_preamble() -> (p: String)
    ensures
        p@ == suggestion_preamble_text(),
{
    String::from_str(
        "You help a freelance software developer fill in a time entry for one day, given a log of \
focused windows (app name + window title) with minutes spent in each.\n\
Propose one time entry:\n\
- start_time: HH:MM when focused work began (ignore brief early checks of mail or chat).\n\
- end_time: HH:MM when focused work ended.\n\
- duration_minutes: minutes of actual work. Exclude idle time and clearly personal activity \
(music, personal browsing, news, social media). Meetings, code review, chat about work and \
documentation count as work.\n\
- description: one line, max 120 characters, past tense, concrete (what was built, fixed or \
discussed). It will be pasted into an invoice worksheet.",
    )
}

/// The endpoint a request to the model goes to.
#[derive(Debug, Clone)]
pub struct AiConnection {
    pub provider: AiProvider,
    pub model: String,
    pub api_key: Option<String>,
    pub base_url: Option<String>,
}

/// An optional text that is not blank once trimmed, trimmed.
pub open spec fn given_trimmed(o: Option<Seq<char>>) -> Option<Seq<char>> {
    match o {
        Some(s) => if trim(s).len() > 0 { Some(trim(s)) } else { None },
        None => None,
    }
}

/// The local Ollama server used when no base URL is configured.
pub const OLLAMA_DEFAULT_URL: &'static str = "http://localhost:11434";

/// Decides how to reach the model: a model name must be set; Ollama needs no key and
/// defaults to the local server; every other provider needs a non-blank key (used as
/// given) and takes the trimmed base URL when one is set.
pub fn ai_connection(cfg: &AiConfig) -> (r: Result<AiConnection, AppError>)
    ensures
        trim(cfg.model@).len() == 0 ==> (r matches Err(e) && e@ == (ErrorKind::Ai, "AI model is not set. Add it in Settings."@)),
        trim(cfg.model@).len() > 0 && cfg.provider == AiProvider::Ollama ==> (r matches Ok(c) && {
            &&& c.provider == cfg.provider
            &&& c.model@ == cfg.model@
            &&& c.api_key is None
            &&& opt_view(c.base_url) == Some(match given_trimmed(opt_view(cfg.base_url)) {
                Some(u) => u,
                None => "http://localhost:11434"@,
            })
        }),
        trim(cfg.model@).len() > 0 && cfg.provider != AiProvider::Ollama ==> match opt_view(cfg.api_key) {
            Some(k) if trim(k).len() > 0 => r matches Ok(c) && {
                &&& c.provider == cfg.provider
                &&& c.model@ == cfg.model@
                &&& opt_view(c.api_key) == Some(k)
                &&& opt_view(c.base_url) == given_trimmed(opt_view(cfg.base_url))
            },
            _ => r matches Err(e) && e@ == (ErrorKind::Ai, "AI API key is not set. Add it in Settings."@),
        },
{
    if trim_chars(&chars_of(cfg.model.as_str())).len() == 0 {
        return Err(AppError::Ai(String::from_str("AI model is not set. Add it in Settings.")));
    }
    let url: Option<String> = match &cfg.base_url {
        Some(u) => {
            let t = trim_chars(&chars_of(u.as_str()));
            if t.len() > 0 {
                Some(string_of(&t))
            } else {
                None
            }
        },
        None => None,
    };
    match cfg.provider {
        AiProvider::Ollama => {
            let u = match url {
                Some(u) => u,
                None => String::from_str(OLLAMA_DEFAULT_URL),
            };
            Ok(AiConnection { provider: cfg.provider, model: cfg.model.clone(), api_key: None, base_url: Some(u) })
        },
        _ => {
            let key = match &cfg.api_key {
                Some(k) => if trim_chars(&chars_of(k.as_str())).len() > 0 {
                    Some(k.clone())
                } else {
                    None
                },
                None => None,
            };
            match key {
                Some(k) => Ok(AiConnection { provider: cfg.provider, model: cfg.model.clone(), api_key: Some(k), base_url: url }),
                None => Err(AppError::Ai(String::from_str("AI API key is not set. Add it in Settings."))),
            }
        },
    }
}

/// What `str::to_lowercase` gives for `s` (Unicode lower-case mapping).
pub uninterp spec fn lowercase(s: Seq<char>) -> Seq<char>;

/// Calls `str::to_lowercase`. Trusted: the result is `lowercase(s@)`.
#[verifier::external_body]
fn to_lowercase(s: &str) -> (r: String)
    ensures
        r@ == lowercase(s@),
{
    s.to_lowercase()
}

/// The minutes of a tag as the summary stores them (`u32` read as `i32`).
pub open spec fn tag_minutes(t: TagOut) -> i32 {
    t.minutes as i32
}

/// The plain values of (name, minutes) pairs.
pub open spec fn pair_views(v: Seq<(String, i32)>) -> Seq<(Seq<char>, i32)> {
    Seq::new(v.len(), |i: int| (v[i].0@, v[i].1))
}

/// The tags to store for the first `n` (name, minutes) pairs: those with a non-blank name
/// and positive minutes, names trimmed and lower-cased.
pub open spec fn cleaned_tags(tags: Seq<(Seq<char>, i32)>, n: int) -> Seq<(Seq<char>, i32)>
    decreases n,
{
    if n <= 0 {
        Seq::empty()
    } else if trim(tags[n - 1].0).len() > 0 && tags[n - 1].1 > 0 {
        cleaned_tags(tags, n - 1).push((lowercase(trim(tags[n - 1].0)), tags[n - 1].1))
    } else {
        cleaned_tags(tags, n - 1)
    }
}

/// The tags to store for the first `n` answered tags.
pub open spec fn stored_tags(tags: Seq<TagOut>, n: int) -> Seq<(Seq<char>, i32)> {
    cleaned_tags(Seq::new(tags.len(), |i: int| (tags[i].name@, tag_minutes(tags[i]))), n)
}

/// Cleans tags before they are stored: drops those with a blank name or no positive
/// minutes, and trims and lower-cases the names of the others.
pub fn clean_tags(tags: &Vec<(String, i32)>) -> (r: Vec<(String, i32)>)
    ensures
        pair_views(r@) == cleaned_tags(pair_views(tags@), tags@.len() as int),
{
    let mut r: Vec<(String, i32)> = Vec::new();
    for i in 0..tags.len()
        invariant
            pair_views(r@) == cleaned_tags(pair_views(tags@), i as int),
    {
        let t = trim_chars(&chars_of(tags[i].0.as_str()));
        let m = tags[i].1;
        if t.len() > 0 && m > 0 {
            let name = to_lowercase(string_of(&t).as_str());
            r.push((name, m));
            assert(pair_views(r@) =~= cleaned_tags(pair_views(tags@), i as int + 1));
        } else {
            assert(pair_views(r@) =~= cleaned_tags(pair_views(tags@), i as int + 1));
        }
    }
    r
}

/// The tags of a summary as they are stored.
pub fn summary_tags(tags: &Vec<TagOut>) -> (r: Vec<(String, i32)>)
    ensures
        pair_views(r@) == stored_tags(tags@, tags@.len() as int),
{
    let mut pairs: Vec<(String, i32)> = Vec::new();
    for i in 0..tags.len()
        invariant
            pairs@.len() == i,
            forall|q: int| 0 <= q < i ==> (#[trigger] pairs@[q]).0@ == tags@[q].name@ && pairs@[q].1 == tag_minutes(tags@[q]),
    {
        let m = #[verifier::truncate]
        (tags[i].minutes as i32);
        pairs.push((tags[i].name.clone(), m));
    }
    assert(pair_views(pairs@) =~= Seq::new(tags@.len(), |i: int| (tags@[i].name@, tag_minutes(tags@[i]))));
    clean_tags(&pairs)
}

/// What the model is given about a day, and what a suggestion falls back on.
#[derive(Debug, Clone)]
pub struct DayDigest {
    pub text: String,
    pub active_minutes: i64,
    pub sample_count: i64,
    pub first_active: Option<String>,
    pub last_active: Option<String>,
}

/// The digest of a day: an error when nothing or less than a minute of activity was
/// tracked; otherwise the day's text, its active minutes, its sample count, and its first
/// and last activity as "HH:MM".
pub fn digest(day: &str, samples: &Vec<Sample>, now: Option<i64>) -> (r: Result<DayDigest, AppError>)
    requires
        samples_ok(samples@),
        now_ok(now),
        sums_fit(samples@.len() as int),
    ensures
        samples@.len() == 0 ==> (r matches Err(e) && e@ == (ErrorKind::NotFound, "No tracked activity for "@ + day@)),
        samples@.len() > 0 ==> exists|a: Aggregate|
            #[trigger] aggregate_of(samples@, now, a) && (if a.active_secs < 60 {
                r matches Err(e) && e@ == (ErrorKind::NotFound, "Less than a minute of activity tracked on "@ + day@)
            } else {
                r matches Ok(d) && {
                    &&& d.text@ == digest_text(day@, a)
                    &&& d.active_minutes == a.active_secs / 60
                    &&& d.sample_count == samples@.len()
                    &&& opt_view(d.first_active) == (match a.first_active {
                        Some(t) => Some(hhmm(t as int)),
                        None => None,
                    })
                    &&& opt_view(d.last_active) == (match a.last_active {
                        Some(t) => Some(hhmm(t as int)),
                        None => None,
                    })
                }
            }),
{
    if samples.len() == 0 {
        let mut v: Vec<char> = Vec::new();
        push_str(&mut v, "No tracked activity for ");
        push_str(&mut v, day);
        return Err(AppError::NotFound(string_of(&v)));
    }
    let agg = aggregate(samples, now);
    proof {
        lemma_first_active_range(samples@, samples@.len() as int);
        lemma_last_active_range(samples@, now, samples@.len() as int);
        lemma_idle_total_bounds(samples@, now, samples@.len() as int, false);
    }
    if agg.active_secs < 60 {
        let mut v: Vec<char> = Vec::new();
        push_str(&mut v, "Less than a minute of activity tracked on ");
        push_str(&mut v, day);
        let r = Err(AppError::NotFound(string_of(&v)));
        assert(aggregate_of(samples@, now, agg));
        return r;
    }
    let text = describe_for_llm(day, &agg);
    let first = match agg.first_active {
        Some(t) => Some(format_hhmm(t)),
        None => None,
    };
    let last = match agg.last_active {
        Some(t) => Some(format_hhmm(t)),
        None => None,
    };
    let d = DayDigest {
        text,
        active_minutes: agg.active_secs / 60,
        sample_count: samples.len() as i64,
        first_active: first,
        last_active: last,
    };
    assert(aggregate_of(samples@, now, agg));
    Ok(d)
}

/// Most characters of a suggestion's description.
pub const SUGGESTION_CHARS: usize = 200;

/// A suggested field: the model's time when it reads as a clock time (`ok`), else the fallback.
pub open spec fn time_pick(t: Seq<char>, ok: bool, fallback: Option<Seq<char>>) -> Option<Seq<char>> {
    if ok {
        Some(t)
    } else {
        fallback
    }
}

/// A suggested field: the model's time when it reads as HH:MM, else the fallback.
pub open spec fn time_or(t: Seq<char>, fallback: Option<Seq<char>>) -> Option<Seq<char>> {
    time_pick(t, chrono_hm(t) is Some, fallback)
}

/// Turns the model's proposal into a suggestion, given whether its start and end read as
/// clock times: those that do are kept, the others replaced by the day's first and last
/// activity; the proposed minutes (the day's active minutes when zero) kept within
/// 1..=1440; the description trimmed and cut to `SUGGESTION_CHARS` characters.
pub fn suggestion_from(out: &SuggestionOut, digest: &DayDigest, start_ok: bool, end_ok: bool) -> (s: Suggestion)
    ensures
        opt_view(s.start_time) == time_pick(out.start_time@, start_ok, opt_view(digest.first_active)),
        opt_view(s.end_time) == time_pick(out.end_time@, end_ok, opt_view(digest.last_active)),
        s.duration_minutes == clamp(
            if out.duration_minutes == 0 { digest.active_minutes as int } else { out.duration_minutes as int },
            1,
            1440,
        ),
        s.description@ == prefix_upto(trim(out.description@), SUGGESTION_CHARS as int),
{
    let start = if start_ok {
        Some(out.start_time.clone())
    } else {
        digest.first_active.clone()
    };
    let end = if end_ok {
        Some(out.end_time.clone())
    } else {
        digest.last_active.clone()
    };
    let d: i64 = if out.duration_minutes == 0 {
        digest.active_minutes
    } else {
        out.duration_minutes as i64
    };
    let clamped: i64 = if d < 1 {
        1
    } else if d > 1440 {
        1440
    } else {
        d
    };
    let t = trim_chars(&chars_of(out.description.as_str()));
    let mut desc: Vec<char> = Vec::new();
    let lim = if t.len() < SUGGESTION_CHARS { t.len() } else { SUGGESTION_CHARS };
    for i in 0..lim
        invariant
            lim <= t@.len(),
            desc@ == t@.take(i as int),
    {
        desc.push(t[i]);
        assert(desc@ =~= t@.take(i + 1));
    }
    assert(t@.take(t@.len() as int) =~= t@);
    Suggestion { start_time: start, end_time: end, duration_minutes: clamped as i32, description: string_of(&desc) }
}

/// Turns the model's proposal into a suggestion: times that read as HH:MM, else the day's
/// first and last activity; the proposed minutes (the day's active minutes when zero) kept
/// within 1..=1440; the description trimmed and cut to `SUGGESTION_CHARS` characters.
pub fn build_suggestion(out: &SuggestionOut, digest: &DayDigest) -> (s: Suggestion)
    ensures
        opt_view(s.start_time) == time_or(out.start_time@, opt_view(digest.first_active)),
        opt_view(s.end_time) == time_or(out.end_time@, opt_view(digest.last_active)),
        s.duration_minutes == clamp(
            if out.duration_minutes == 0 { digest.active_minutes as int } else { out.duration_minutes as int },
            1,
            1440,
        ),
        s.description@ == prefix_upto(trim(out.description@), SUGGESTION_CHARS as int),
{
    let start_ok = parse_hm(out.start_time.as_str()).is_some();
    let end_ok = parse_hm(out.end_time.as_str()).is_some();
    suggestion_from(out, digest, start_ok, end_ok)
}

} // verus!
