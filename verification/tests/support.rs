use flowrly::ai::{ai_connection, build_suggestion, clean_tags, day_summary_preamble, digest, suggestion_preamble, suggestion_from, summary_tags, AiConfig, DayDigest, SuggestionOut, TagOut};
use flowrly::activity::Sample;
use flowrly::backup::{list, pending_path, prune_targets, resolve_dir, backup_name};
use flowrly::fakturoid::{accounts, check_credentials, default_expiry, generators, more_subject_pages, subjects, token_lifetime, user_agent, AccountItem, Credentials, GeneratorItem, SubjectItem};
use flowrly::models::{AiProvider, AppError, BackupFile, SecretKey, Settings};
use flowrly::secrets::SecretWrite;
use flowrly::settings::{check_open_url, normalize_settings, require_slug, tracker_config};
use flowrly::tracker::{is_ignored, observe, tracker_step, Observation, TrackerConfig};

#[test]
fn backup_dir_resolution() {
    assert_eq!(resolve_dir("/data/app", "  ", Some("/home/u")), "/data/app/backups");
    assert_eq!(resolve_dir("/data/app/", "", None), "/data/app/backups");
    assert_eq!(resolve_dir("", "", None), "backups");
    assert_eq!(resolve_dir("/d", " ~/bk ", Some("/home/u")), "/home/u/bk");
    assert_eq!(resolve_dir("/d", "~/bk", None), "~/bk");
    assert_eq!(resolve_dir("/d", "/mnt/b", Some("/home/u")), "/mnt/b");
    assert_eq!(pending_path("/x/data.db"), "/x/data.db.restore-pending");
}

fn file(name: &str) -> BackupFile {
    BackupFile { path: format!("/b/{name}"), name: name.into(), size_bytes: 1, created_at: String::new() }
}

#[test]
fn backups_listed_newest_first_and_pruned() {
    assert!(backup_name("flowrly-2026-09-11-101010.db"));
    assert!(!backup_name("flowrly-.txt"));
    assert!(!backup_name("other-2026.db"));
    let files = vec![
        file("flowrly-2026-09-10-080000.db"),
        file("notes.txt"),
        file("flowrly-2026-09-12-080000.db"),
        file("flowrly-2026-09-11-080000.db"),
    ];
    let listed = list(files);
    let names: Vec<&str> = listed.iter().map(|f| f.name.as_str()).collect();
    assert_eq!(names, vec!["flowrly-2026-09-12-080000.db", "flowrly-2026-09-11-080000.db", "flowrly-2026-09-10-080000.db"]);
    assert_eq!(prune_targets(&listed, 1), vec!["/b/flowrly-2026-09-11-080000.db", "/b/flowrly-2026-09-10-080000.db"]);
    assert!(prune_targets(&listed, 30).is_empty());
    assert_eq!(prune_targets(&listed, 0).len(), 3);
}

fn settings() -> Settings {
    Settings::defaults("model-x".into())
}

#[test]
fn default_settings() {
    let s = settings();
    assert_eq!(s.ai_provider, AiProvider::Anthropic);
    assert_eq!(s.ai_model, "model-x");
    assert!(s.tracking_enabled);
    assert_eq!(s.idle_threshold_seconds, 300);
    assert_eq!(s.ignored_apps, vec!["1Password", "Keychain Access", "Messages"]);
    assert!(s.launch_at_login);
    assert_eq!(SecretKey::AiApiKey.as_str(), "ai_api_key");
    assert_eq!(SecretKey::FakturoidClientSecret.as_str(), "fakturoid_client_secret");
}

#[test]
fn saved_settings_are_cleaned_once_and_for_all() {
    let mut s = settings();
    s.ignored_apps = vec![" Slack ".into(), "   ".into(), "Zoom".into()];
    s.idle_threshold_seconds = 5;
    let n = normalize_settings(s);
    assert_eq!(n.ignored_apps, vec!["Slack", "Zoom"]);
    assert_eq!(n.idle_threshold_seconds, 30);
    let again = normalize_settings(n.clone());
    assert_eq!(again.ignored_apps, n.ignored_apps);
    assert_eq!(again.idle_threshold_seconds, 30);
    let mut big = settings();
    big.idle_threshold_seconds = 99999;
    assert_eq!(normalize_settings(big).idle_threshold_seconds, 3600);
    let mut low = settings();
    low.idle_threshold_seconds = 10;
    assert_eq!(tracker_config(&low).idle_threshold_secs, 30);
}

#[test]
fn urls_and_slug() {
    assert!(check_open_url("https://example.com").is_ok());
    assert!(check_open_url("http://x").is_ok());
    assert!(check_open_url("file:///etc/passwd").is_err());
    let mut s = settings();
    assert!(matches!(require_slug(&s), Err(AppError::Fakturoid(_))));
    s.fakturoid_account_slug = "  acme ".into();
    assert_eq!(require_slug(&s).unwrap(), "acme");
}

fn cfg(provider: AiProvider, model: &str, url: Option<&str>, key: Option<&str>) -> AiConfig {
    AiConfig { provider, model: model.into(), base_url: url.map(Into::into), api_key: key.map(Into::into) }
}

#[test]
fn ai_connection_rules() {
    assert!(matches!(ai_connection(&cfg(AiProvider::Openai, " ", None, Some("k"))), Err(AppError::Ai(_))));
    assert!(matches!(ai_connection(&cfg(AiProvider::Openai, "m", None, Some("  "))), Err(AppError::Ai(_))));
    let c = ai_connection(&cfg(AiProvider::Gemini, "m", Some(" https://x "), Some(" k "))).unwrap();
    assert_eq!(c.api_key.as_deref(), Some(" k "));
    assert_eq!(c.base_url.as_deref(), Some("https://x"));
    let o = ai_connection(&cfg(AiProvider::Ollama, "llama", Some(""), None)).unwrap();
    assert_eq!(o.base_url.as_deref(), Some("http://localhost:11434"));
    assert!(o.api_key.is_none());
}

#[test]
fn preambles() {
    let p = day_summary_preamble(&vec![]);
    assert!(p.contains("Existing tags: (none yet). Reuse an existing tag"));
    assert!(p.starts_with("You summarize one day"));
    let q = day_summary_preamble(&vec!["coding".into(), "meetings".into()]);
    assert!(q.contains("Existing tags: coding, meetings. Reuse"));
    assert!(q.ends_with("Use at most 6 tags."));
    assert!(suggestion_preamble().ends_with("It will be pasted into an invoice worksheet."));
}

#[test]
fn summary_tags_are_normalised() {
    let tags = vec![
        TagOut { name: " Coding ".into(), minutes: 200 },
        TagOut { name: "  ".into(), minutes: 5 },
        TagOut { name: "meetings".into(), minutes: 0 },
        TagOut { name: "ÉCOLE".into(), minutes: 3_000_000_000 },
        TagOut { name: "Review".into(), minutes: 10 },
    ];
    assert_eq!(summary_tags(&tags), vec![("coding".to_string(), 200), ("review".to_string(), 10)]);
}

fn digest_of(first: Option<&str>, last: Option<&str>, minutes: i64) -> DayDigest {
    DayDigest { text: String::new(), active_minutes: minutes, sample_count: 3, first_active: first.map(Into::into), last_active: last.map(Into::into) }
}

#[test]
fn suggestions_fall_back_on_the_day() {
    let out = SuggestionOut { start_time: "8:30".into(), end_time: "later".into(), duration_minutes: 0, description: format!("  {}", "d".repeat(250)) };
    let s = build_suggestion(&out, &digest_of(Some("08:00"), Some("17:00"), 2000));
    assert_eq!(s.start_time.as_deref(), Some("8:30"));
    assert_eq!(s.end_time.as_deref(), Some("17:00"));
    assert_eq!(s.duration_minutes, 1440);
    assert_eq!(s.description.chars().count(), 200);
    let out2 = SuggestionOut { start_time: "".into(), end_time: "12:00".into(), duration_minutes: 45, description: "x".into() };
    let s2 = build_suggestion(&out2, &digest_of(None, None, 0));
    assert_eq!(s2.start_time, None);
    assert_eq!(s2.duration_minutes, 45);
}

#[test]
fn digests_need_a_minute_of_activity() {
    let e = digest("2026-09-11", &vec![], None).unwrap_err();
    assert!(matches!(e, AppError::NotFound(m) if m == "No tracked activity for 2026-09-11"));
    let short = vec![Sample { at: 1_000_000, app: "A".into(), title: "t".into(), idle: false }];
    let e2 = digest("d", &short, None).unwrap_err();
    assert!(matches!(e2, AppError::NotFound(m) if m == "Less than a minute of activity tracked on d"));
    let long = vec![
        Sample { at: 1_000_000, app: "A".into(), title: "t".into(), idle: false },
        Sample { at: 1_000_100, app: "A".into(), title: "t".into(), idle: false },
    ];
    let d = digest("d", &long, None).unwrap();
    assert_eq!(d.active_minutes, 1);
    assert_eq!(d.sample_count, 2);
    assert!(d.text.starts_with("Date: d\nTotal active time: 1 minutes"));
}

fn tracker_cfg() -> TrackerConfig {
    TrackerConfig { enabled: true, idle_threshold_secs: 300, ignored_apps: vec![" 1password".into(), "Messages".into()] }
}

#[test]
fn ignored_apps_are_not_recorded() {
    let c = tracker_cfg();
    assert!(is_ignored(&c, "1Password "));
    assert!(!is_ignored(&c, "Safari"));
    let o = observe(&c, Some(400), "MESSAGES".into(), "secret chat".into(), None);
    assert_eq!(o.app, "Ignored app");
    assert_eq!(o.title, "");
    assert!(o.idle);
    let o2 = observe(&c, None, "Ghostty".into(), "tab bar".into(), Some("vim main.rs".into()));
    assert_eq!(o2.title, "vim main.rs");
    assert!(!o2.idle);
    let o3 = observe(&c, Some(10), "Ghostty".into(), "tab bar".into(), Some("".into()));
    assert_eq!(o3.title, "tab bar");
}

fn obs(app: &str) -> Observation {
    Observation { app: app.into(), title: "t".into(), idle: false }
}

#[test]
fn tracker_writes_on_change_and_heartbeat() {
    let s = tracker_step(None, true, Some(obs("A")), 0);
    assert!(s.write.is_some());
    let same = tracker_step(s.last.clone(), true, Some(obs("A")), 10);
    assert!(same.write.is_none());
    assert!(same.last.is_some());
    let beat = tracker_step(same.last.clone(), true, Some(obs("A")), 60);
    assert!(beat.write.is_some());
    let changed = tracker_step(beat.last.clone(), true, Some(obs("B")), 1);
    assert_eq!(changed.write.unwrap().app, "B");
    let off = tracker_step(changed.last.clone(), false, Some(obs("B")), 100);
    assert!(off.last.is_none() && off.write.is_none());
    let none = tracker_step(Some(obs("A")), true, None, 100);
    assert!(none.write.is_none());
    assert_eq!(none.last.unwrap().app, "A");
}

#[test]
fn fakturoid_rules() {
    assert_eq!(default_expiry(), 7200);
    assert_eq!(token_lifetime(7200), 7140);
    assert_eq!(token_lifetime(30), 0);
    let mut c = Credentials { client_id: "id".into(), client_secret: " ".into(), contact_email: "  ".into() };
    assert_eq!(user_agent(&c), "Flowrly (no-reply@flowrly.local)");
    assert!(matches!(check_credentials(&c), Err(AppError::Fakturoid(_))));
    c.client_secret = "s".into();
    c.contact_email = " me@x.cz ".into();
    assert!(check_credentials(&c).is_ok());
    assert_eq!(user_agent(&c), "Flowrly (me@x.cz)");
    assert!(more_subject_pages(1, Some(40)));
    assert!(!more_subject_pages(1, Some(39)));
    assert!(!more_subject_pages(10, Some(40)));
    assert!(!more_subject_pages(2, None));
}

#[test]
fn fakturoid_lists() {
    let a = accounts(&vec![
        AccountItem { slug: Some("acme".into()), name: None },
        AccountItem { slug: None, name: Some("x".into()) },
    ]);
    assert_eq!(a.len(), 1);
    assert_eq!(a[0].slug, "acme");
    assert_eq!(a[0].name, "");
    let s = subjects(&vec![
        SubjectItem { id: Some(5), name: Some("Acme".into()), registration_no: Some("123".into()) },
        SubjectItem { id: None, name: Some("skip".into()), registration_no: None },
    ]);
    assert_eq!(s.len(), 1);
    assert_eq!(s[0].id, 5);
    assert_eq!(s[0].registration_no.as_deref(), Some("123"));
    let g = generators(&vec![GeneratorItem { id: Some(3), name: None, subject_id: Some(16) }]);
    assert_eq!(g[0].subject_id, Some(16));
    assert_eq!(g[0].name, "");
}

#[test]
fn secrets_empty_means_delete() {
    assert!(matches!(flowrly::secrets::set(SecretKey::AiApiKey, ""), SecretWrite::Delete(SecretKey::AiApiKey)));
    assert!(matches!(flowrly::secrets::set(SecretKey::AiApiKey, "k"), SecretWrite::Store(SecretKey::AiApiKey, v) if v == "k"));
}

#[test]
fn suggestion_from_checked_times() {
    let out = SuggestionOut { start_time: "09:15".into(), end_time: "18:00".into(), duration_minutes: 0, description: "  fixed bug  ".into() };
    let day = digest_of(Some("08:00"), Some("17:00"), 0);
    let s = suggestion_from(&out, &day, true, false);
    assert_eq!(s.start_time.as_deref(), Some("09:15"));
    assert_eq!(s.end_time.as_deref(), Some("17:00"));
    assert_eq!(s.duration_minutes, 1);
    assert_eq!(s.description, "fixed bug");
    let s2 = suggestion_from(&SuggestionOut { duration_minutes: 480, ..out }, &day, false, true);
    assert_eq!(s2.start_time.as_deref(), Some("08:00"));
    assert_eq!(s2.end_time.as_deref(), Some("18:00"));
    assert_eq!(s2.duration_minutes, 480);
}

#[test]
fn stored_tags_are_cleaned() {
    let tags = vec![("  Code Review ".to_string(), 30), ("   ".to_string(), 10), ("idle".to_string(), 0), ("Ops".to_string(), -5), ("MEETINGS".to_string(), 15)];
    assert_eq!(clean_tags(&tags), vec![("code review".to_string(), 30), ("meetings".to_string(), 15)]);
}
