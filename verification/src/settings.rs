//! Rules applied when settings are saved and put to use, and the checks on user-supplied
//! URLs and the selected Fakturoid account.

use vstd::prelude::*;
use crate::models::{string_views, AppError, ErrorKind, Settings};
use crate::text::{chars_of, lemma_trim_idempotent, string_of, trim, trim_chars};
use crate::tracker::TrackerConfig;

verus! {

/// The first `n` ignored applications, trimmed, blank ones dropped.
pub open spec fn cleaned_apps(apps: Seq<String>, n: int) -> Seq<Seq<char>>
    decreases n,
{
    if n <= 0 {
        Seq::empty()
    } else if trim(apps[n - 1]@).len() > 0 {
        cleaned_apps(apps, n - 1).push(trim(apps[n - 1]@))
    } else {
        cleaned_apps(apps, n - 1)
    }
}

/// `v` limited to `lo..=hi` (`lo <= hi`).
pub open spec fn clamp(v: int, lo: int, hi: int) -> int {
    if v < lo {
        lo
    } else if v > hi {
        hi
    } else {
        v
    }
}

/// Settings as they are stored: ignored applications trimmed with blank ones dropped, and
/// the idle threshold kept within 30..=3600 seconds; everything else as given.
pub fn normalize_settings(settings: Settings) -> (s: Settings)
    ensures
        string_views(s.ignored_apps@) == cleaned_apps(settings.ignored_apps@, settings.ignored_apps@.len() as int),
        s.idle_threshold_seconds == clamp(settings.idle_threshold_seconds as int, 30, 3600),
        s.ai_provider == settings.ai_provider,
        s.ai_model == settings.ai_model,
        s.ai_base_url == settings.ai_base_url,
        s.fakturoid_client_id == settings.fakturoid_client_id,
        s.fakturoid_account_slug == settings.fakturoid_account_slug,
        s.fakturoid_contact_email == settings.fakturoid_contact_email,
        s.tracking_enabled == settings.tracking_enabled,
        s.backup_dir == settings.backup_dir,
        s.launch_at_login == settings.launch_at_login,
{
    let mut apps: Vec<String> = Vec::new();
    let n = settings.ignored_apps.len();
    for i in 0..n
        invariant
            n == settings.ignored_apps@.len(),
            string_views(apps@) == cleaned_apps(settings.ignored_apps@, i as int),
    {
        let t = trim_chars(&chars_of(settings.ignored_apps[i].as_str()));
        let ghost before = apps@;
        if t.len() > 0 {
            apps.push(string_of(&t));
            assert(string_views(apps@) =~= string_views(before).push(trim(settings.ignored_apps@[i as int]@)));
        }
    }
    let idle = if settings.idle_threshold_seconds < 30 {
        30
    } else if settings.idle_threshold_seconds > 3600 {
        3600
    } else {
        settings.idle_threshold_seconds
    };
    Settings {
        ai_provider: settings.ai_provider,
        ai_model: settings.ai_model,
        ai_base_url: settings.ai_base_url,
        fakturoid_client_id: settings.fakturoid_client_id,
        fakturoid_account_slug: settings.fakturoid_account_slug,
        fakturoid_contact_email: settings.fakturoid_contact_email,
        tracking_enabled: settings.tracking_enabled,
        idle_threshold_seconds: idle,
        ignored_apps: apps,
        backup_dir: settings.backup_dir,
        launch_at_login: settings.launch_at_login,
    }
}

/// The tracker's configuration from the settings: tracking on or off, an idle threshold
/// of at least 30 seconds, and the ignored applications.
pub fn tracker_config(s: &Settings) -> (c: TrackerConfig)
    ensures
        c.enabled == s.tracking_enabled,
        c.idle_threshold_secs as int == if s.idle_threshold_seconds < 30 { 30 } else { s.idle_threshold_seconds as int },
        c.ignored_apps@ == s.ignored_apps@,
{
    let t: i32 = if s.idle_threshold_seconds < 30 {
        30
    } else {
        s.idle_threshold_seconds
    };
    let mut apps: Vec<String> = Vec::new();
    for i in 0..s.ignored_apps.len()
        invariant
            apps@ == s.ignored_apps@.take(i as int),
    {
        apps.push(s.ignored_apps[i].clone());
        assert(apps@ =~= s.ignored_apps@.take(i + 1));
    }
    assert(apps@ =~= s.ignored_apps@);
    TrackerConfig { enabled: s.tracking_enabled, idle_threshold_secs: t as u64, ignored_apps: apps }
}

/// The URL starts with "https://" or "http://".
pub open spec fn is_web_url(url: Seq<char>) -> bool {
    ||| url.len() >= 8 && url.take(8) == "https://"@
    ||| url.len() >= 7 && url.take(7) == "http://"@
}

fn has_prefix(v: &Vec<char>, p: &Vec<char>) -> (b: bool)
    ensures
        b == (v@.len() >= p@.len() && v@.take(p@.len() as int) == p@),
{
    if v.len() < p.len() {
        return false;
    }
    let mut k: usize = 0;
    while k < p.len()
        invariant
            v@.len() >= p@.len(),
            k <= p@.len(),
            forall|q: int| 0 <= q < k ==> v@[q] == p@[q],
        decreases p@.len() - k,
    {
        if v[k] != p[k] {
            assert(v@.take(p@.len() as int)[k as int] != p@[k as int]);
            return false;
        }
        k = k + 1;
    }
    assert(v@.take(p@.len() as int) =~= p@);
    true
}

/// Only web URLs may be opened.
pub fn check_open_url(url: &str) -> (r: Result<(), AppError>)
    ensures
        is_web_url(url@) ==> r is Ok,
        !is_web_url(url@) ==> (r matches Err(e) && e@ == (ErrorKind::Validation, "Only http(s) URLs can be opened"@)),
{
    let v = chars_of(url);
    proof {
        reveal_strlit("https://");
        reveal_strlit("http://");
    }
    if has_prefix(&v, &chars_of("https://")) || has_prefix(&v, &chars_of("http://")) {
        Ok(())
    } else {
        Err(AppError::Validation(String::from_str("Only http(s) URLs can be opened")))
    }
}

/// The selected Fakturoid account, trimmed; none selected is an error.
pub fn require_slug(s: &Settings) -> (r: Result<String, AppError>)
    ensures
        trim(s.fakturoid_account_slug@).len() > 0 ==> (r matches Ok(slug) && slug@ == trim(s.fakturoid_account_slug@)),
        trim(s.fakturoid_account_slug@).len() == 0 ==> (r matches Err(e) && e@ == (
            ErrorKind::Fakturoid,
            "Fakturoid account is not selected. Pick one in Settings."@,
        )),
{
    let t = trim_chars(&chars_of(s.fakturoid_account_slug.as_str()));
    if t.len() == 0 {
        return Err(AppError::Fakturoid(String::from_str("Fakturoid account is not selected. Pick one in Settings.")));
    }
    Ok(string_of(&t))
}

proof fn lemma_cleaned_items(apps: Seq<String>, n: int)
    requires
        0 <= n <= apps.len(),
    ensures
        forall|i: int|
            0 <= i < cleaned_apps(apps, n).len() ==> #[trigger] trim(cleaned_apps(apps, n)[i]) == cleaned_apps(apps, n)[i]
                && cleaned_apps(apps, n)[i].len() > 0,
    decreases n,
{
    if n > 0 {
        lemma_cleaned_items(apps, n - 1);
        lemma_trim_idempotent(apps[n - 1]@);
        let prev = cleaned_apps(apps, n - 1);
        let cur = cleaned_apps(apps, n);
        assert forall|i: int| 0 <= i < cur.len() implies #[trigger] trim(cur[i]) == cur[i] && cur[i].len() > 0 by {
            if i < prev.len() {
                assert(cur[i] == prev[i]);
                assert(trim(prev[i]) == prev[i]);
            }
        }
    }
}

proof fn lemma_clean_list_unchanged(apps: Seq<String>, n: int)
    requires
        0 <= n <= apps.len(),
        forall|i: int| 0 <= i < apps.len() ==> #[trigger] trim(apps[i]@) == apps[i]@ && apps[i]@.len() > 0,
    ensures
        cleaned_apps(apps, n) == string_views(apps).take(n),
    decreases n,
{
    if n > 0 {
        lemma_clean_list_unchanged(apps, n - 1);
        assert(string_views(apps).take(n) =~= string_views(apps).take(n - 1).push(apps[n - 1]@));
    } else {
        assert(string_views(apps).take(0) =~= Seq::<Seq<char>>::empty());
    }
}

/// Saving settings twice stores the same as saving them once: cleaning the ignored
/// applications of an already cleaned list changes nothing, and a kept idle threshold
/// stays as it is.
pub proof fn law_settings_normalization_idempotent(apps: Seq<String>, cleaned: Seq<String>, idle: i32)
    requires
        string_views(cleaned) == cleaned_apps(apps, apps.len() as int),
    ensures
        cleaned_apps(cleaned, cleaned.len() as int) == string_views(cleaned),
        clamp(clamp(idle as int, 30, 3600), 30, 3600) == clamp(idle as int, 30, 3600),
{
    lemma_cleaned_items(apps, apps.len() as int);
    assert forall|i: int| 0 <= i < cleaned.len() implies #[trigger] trim(cleaned[i]@) == cleaned[i]@ && cleaned[i]@.len() > 0 by {
        assert(string_views(cleaned)[i] == cleaned[i]@);
        assert(trim(cleaned_apps(apps, apps.len() as int)[i]) == cleaned_apps(apps, apps.len() as int)[i]);
    }
    lemma_clean_list_unchanged(cleaned, cleaned.len() as int);
    assert(string_views(cleaned).take(cleaned.len() as int) =~= string_views(cleaned));
}

} // verus!
