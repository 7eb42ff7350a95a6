//! The focused-window tracker's rules: what one observation records, and when the
//! polling loop writes an activity sample.

use vstd::prelude::*;
use crate::text::{chars_of, trim, trim_chars};

verus! {

/// Seconds between two polls of the focused window.
pub const POLL_INTERVAL_SECS: u64 = 2;

/// Seconds after which an unchanged observation is written again as a heartbeat.
pub const HEARTBEAT_SECS: u64 = 60;

/// Gap between consecutive samples above which the machine is taken to have been off or asleep.
pub const MAX_GAP_SECS: i64 = 150;

/// The application name recorded for an ignored application.
pub const IGNORED_APP_LABEL: &'static str = "Ignored app";

} // verus!

verus! {

/// What the tracker is told by the settings.
#[derive(Debug, Clone)]
pub struct TrackerConfig {
    pub enabled: bool,
    pub idle_threshold_secs: u64,
    pub ignored_apps: Vec<String>,
}

} // verus!

verus! {

/// The ASCII lower-case form of a character.
pub open spec fn ascii_lower(c: char) -> char {
    if 'A' <= c && c <= 'Z' {
        ((c as u32) + 32) as char
    } else {
        c
    }
}

/// Two texts are equal ignoring ASCII case (as `str::eq_ignore_ascii_case` compares).
pub open spec fn eq_ignore_ascii_case(a: Seq<char>, b: Seq<char>) -> bool {
    a.len() == b.len() && forall|i: int| 0 <= i < a.len() ==> ascii_lower(#[trigger] a[i]) == ascii_lower(b[i])
}

fn lower_char(c: char) -> (r: char)
    ensures
        r == ascii_lower(c),
{
    if 'A' <= c && c <= 'Z' {
        lower_code((c as u32) + 32)
    } else {
        c
    }
}

fn lower_code(u: u32) -> (c: char)
    requires
        0x61 <= u <= 0x7a,
    ensures
        c == u as char,
{
    if u == 0x61 { 'a' } else if u == 0x62 { 'b' } else if u == 0x63 { 'c' } else if u == 0x64 { 'd' }
    else if u == 0x65 { 'e' } else if u == 0x66 { 'f' } else if u == 0x67 { 'g' } else if u == 0x68 { 'h' }
    else if u == 0x69 { 'i' } else if u == 0x6a { 'j' } else if u == 0x6b { 'k' } else if u == 0x6c { 'l' }
    else if u == 0x6d { 'm' } else if u == 0x6e { 'n' } else if u == 0x6f { 'o' } else if u == 0x70 { 'p' }
    else if u == 0x71 { 'q' } else if u == 0x72 { 'r' } else if u == 0x73 { 's' } else if u == 0x74 { 't' }
    else if u == 0x75 { 'u' } else if u == 0x76 { 'v' } else if u == 0x77 { 'w' } else if u == 0x78 { 'x' }
    else if u == 0x79 { 'y' } else { 'z' }
}

fn same_ignoring_case(a: &Vec<char>, b: &Vec<char>) -> (r: bool)
    ensures
        r == eq_ignore_ascii_case(a@, b@),
{
    if a.len() != b.len() {
        return false;
    }
    let mut i: usize = 0;
    while i < a.len()
        invariant
            a@.len() == b@.len(),
            i <= a@.len(),
            forall|q: int| 0 <= q < i ==> ascii_lower(#[trigger] a@[q]) == ascii_lower(b@[q]),
        decreases a@.len() - i,
    {
        if lower_char(a[i]) != lower_char(b[i]) {
            return false;
        }
        i = i + 1;
    }
    true
}

/// The application is one the user excluded from tracking: some ignored name equals it,
/// both trimmed, ignoring ASCII case.
pub open spec fn ignored(apps: Seq<String>, app: Seq<char>) -> bool {
    exists|j: int| 0 <= j < apps.len() && eq_ignore_ascii_case(trim(#[trigger] apps[j]@), trim(app))
}

/// Whether an application is ignored.
pub fn is_ignored(cfg: &TrackerConfig, app_name: &str) -> (b: bool)
    ensures
        b == ignored(cfg.ignored_apps@, app_name@),
{
    let target = trim_chars(&chars_of(app_name));
    for j in 0..cfg.ignored_apps.len()
        invariant
            target@ == trim(app_name@),
            forall|q: int| 0 <= q < j ==> !eq_ignore_ascii_case(trim(#[trigger] cfg.ignored_apps@[q]@), target@),
    {
        let a = trim_chars(&chars_of(cfg.ignored_apps[j].as_str()));
        if same_ignoring_case(&a, &target) {
            return true;
        }
    }
    false
}

/// One observation of the focused window.
#[derive(Debug, Clone)]
pub struct Observation {
    pub app: String,
    pub title: String,
    pub idle: bool,
}

/// Builds the observation of the focused window: an ignored application is recorded under
/// `IGNORED_APP_LABEL` with no title; otherwise the focused window's own title when the
/// accessibility lookup gave a non-empty one, else the window list's title. The user
/// counts as idle when the idle time is known and at least the threshold.
pub fn observe(
    cfg: &TrackerConfig,
    idle_secs: Option<u64>,
    app_name: String,
    window_title: String,
    focused_title: Option<String>,
) -> (o: Observation)
    ensures
        o.idle == (idle_secs matches Some(t) && t >= cfg.idle_threshold_secs),
        ignored(cfg.ignored_apps@, app_name@) ==> o.app@ == IGNORED_APP_LABEL@ && o.title@ == Seq::<char>::empty(),
        !ignored(cfg.ignored_apps@, app_name@) ==> o.app == app_name && o.title == match focused_title {
            Some(t) => if t@.len() > 0 { t } else { window_title },
            None => window_title,
        },
{
    let idle = match idle_secs {
        Some(t) => t >= cfg.idle_threshold_secs,
        None => false,
    };
    if is_ignored(cfg, app_name.as_str()) {
        Observation { app: String::from_str(IGNORED_APP_LABEL), title: String::new(), idle }
    } else {
        let title = match focused_title {
            Some(t) => if chars_of(t.as_str()).len() > 0 {
                t
            } else {
                window_title
            },
            None => window_title,
        };
        Observation { app: app_name, title, idle }
    }
}

/// Two observations record the same thing.
pub open spec fn same_observation(a: Observation, b: Observation) -> bool {
    a.app@ == b.app@ && a.title@ == b.title@ && a.idle == b.idle
}

/// What the tracker does after one poll.
#[derive(Debug, Clone)]
pub struct TrackerStep {
    /// The observation to remember as the last one.
    pub last: Option<Observation>,
    /// The observation to write as a sample, if any (the write clock restarts then).
    pub write: Option<Observation>,
}

/// One poll of the tracker: with tracking off, nothing is written and the last observation
/// is forgotten; without an observation, nothing changes; otherwise the observation is
/// written (and remembered) when it differs from the last one or `HEARTBEAT_SECS` have
/// passed since the last write.
pub fn tracker_step(last: Option<Observation>, enabled: bool, obs: Option<Observation>, secs_since_write: u64) -> (step: TrackerStep)
    ensures
        !enabled ==> step.last is None && step.write is None,
        enabled && obs is None ==> step.last == last && step.write is None,
        enabled && obs is Some ==> {
            let o = obs->0;
            let changed = match last {
                Some(l) => !same_observation(l, o),
                None => true,
            };
            if changed || secs_since_write >= HEARTBEAT_SECS {
                step.last == Some(o) && step.write == Some(o)
            } else {
                step.last == last && step.write is None
            }
        },
{
    if !enabled {
        return TrackerStep { last: None, write: None };
    }
    match obs {
        None => TrackerStep { last, write: None },
        Some(o) => {
            let changed = match &last {
                Some(l) => !(l.app == o.app && l.title == o.title && l.idle == o.idle),
                None => true,
            };
            if changed || secs_since_write >= HEARTBEAT_SECS {
                let w = Observation { app: o.app.clone(), title: o.title.clone(), idle: o.idle };
                TrackerStep { last: Some(o), write: Some(w) }
            } else {
                TrackerStep { last, write: None }
            }
        },
    }
}

} // verus!
