use chrono::{NaiveDate, NaiveDateTime};
use flowrly::activity::{aggregate, day_activity, describe_for_llm, load_samples, sample_durations, samples_from_stamps, tracked_day, Sample, SampleRow};
use flowrly::tracker::MAX_GAP_SECS;

fn at(h: u32, m: u32, s: u32) -> i64 {
    stamp(NaiveDate::from_ymd_opt(2026, 9, 11).unwrap().and_hms_opt(h, m, s).unwrap())
}

fn stamp(t: NaiveDateTime) -> i64 {
    t.and_utc().timestamp()
}

fn sample(t: i64, app: &str, idle: bool) -> Sample {
    Sample { at: t, app: app.into(), title: "t".into(), idle }
}

#[test]
fn caps_large_gaps() {
    let samples = vec![sample(at(9, 0, 0), "A", false), sample(at(12, 0, 0), "B", false)];
    let d = sample_durations(&samples, None);
    assert_eq!(d, vec![MAX_GAP_SECS, 2]);
}

#[test]
fn idle_not_counted_as_active() {
    let samples = vec![
        sample(at(9, 0, 0), "A", false),
        sample(at(9, 1, 0), "A", true),
        sample(at(9, 3, 0), "A", false),
        sample(at(9, 4, 0), "A", false),
    ];
    let agg = aggregate(&samples, None);
    assert_eq!(agg.active_secs, 60 + 60 + 2);
    assert_eq!(agg.idle_secs, 120);
    assert_eq!(agg.first_active, Some(at(9, 0, 0)));
}

#[test]
fn last_sample_today_runs_until_now() {
    let samples = vec![sample(at(9, 0, 0), "A", false)];
    let d = sample_durations(&samples, Some(at(9, 1, 30)));
    assert_eq!(d, vec![90]);
}

#[test]
fn last_sample_of_another_day_gets_one_poll() {
    let samples = vec![sample(at(23, 59, 0), "A", false)];
    let next_day = stamp(NaiveDate::from_ymd_opt(2026, 9, 12).unwrap().and_hms_opt(0, 0, 30).unwrap());
    assert_eq!(sample_durations(&samples, Some(next_day)), vec![2]);
    let backwards = vec![sample(at(10, 0, 0), "A", false), sample(at(9, 0, 0), "B", false)];
    assert_eq!(sample_durations(&backwards, None), vec![0, 2]);
}

#[test]
fn blocks_hours_and_bounds() {
    let samples = vec![
        Sample { at: at(9, 59, 0), app: "Code".into(), title: "a.rs".into(), idle: false },
        Sample { at: at(10, 0, 0), app: "Code".into(), title: "b.rs".into(), idle: false },
        Sample { at: at(10, 2, 0), app: "Code".into(), title: "a.rs".into(), idle: false },
        Sample { at: at(10, 3, 0), app: "Mail".into(), title: "inbox".into(), idle: false },
        Sample { at: at(10, 4, 0), app: "Mail".into(), title: "inbox".into(), idle: true },
    ];
    let agg = aggregate(&samples, None);
    // a.rs: 60 + 60, b.rs: 120, inbox: 60; idle sample 2s
    assert_eq!(agg.active_secs, 300);
    assert_eq!(agg.idle_secs, 2);
    assert_eq!(agg.per_hour[9], 60);
    assert_eq!(agg.per_hour[10], 240);
    assert_eq!(agg.per_hour.iter().sum::<i64>(), agg.active_secs);
    assert_eq!(agg.blocks.iter().map(|b| b.2).sum::<i64>(), agg.active_secs);
    assert_eq!(agg.blocks.len(), 3);
    assert_eq!(agg.blocks[2], ("Mail".to_string(), "inbox".to_string(), 60));
    assert!(agg.blocks[0].2 >= agg.blocks[1].2);
    assert_eq!(agg.last_active, Some(at(10, 4, 0)));
}

#[test]
fn day_activity_overview() {
    let samples = vec![
        Sample { at: at(9, 0, 0), app: "Code".into(), title: "a.rs".into(), idle: false },
        Sample { at: at(9, 2, 0), app: "Code".into(), title: "b.rs".into(), idle: false },
        Sample { at: at(9, 4, 0), app: "Chat".into(), title: "team".into(), idle: false },
        Sample { at: at(9, 4, 40), app: "Code".into(), title: "a.rs".into(), idle: false },
    ];
    let d = day_activity("2026-09-11", &samples, None);
    assert_eq!(d.day, "2026-09-11");
    assert_eq!(d.active_minutes, 4);
    assert_eq!(d.idle_minutes, 0);
    assert_eq!(d.first_active.as_deref(), Some("09:00"));
    assert_eq!(d.last_active.as_deref(), Some("09:04"));
    assert_eq!(d.sample_count, 4);
    assert_eq!(d.top_blocks.len(), 3);
    assert_eq!(d.apps.len(), 1);
    assert_eq!(d.apps[0].app, "Code");
    assert_eq!(d.apps[0].minutes, 4);
    assert_eq!(d.per_hour.len(), 24);
    assert_eq!(d.per_hour[9], 4);
    let t = tracked_day("2026-09-11".into(), &samples, None, true);
    assert_eq!(t.active_minutes, 4);
    assert!(t.has_summary);
}

#[test]
fn digest_text_for_llm() {
    let samples = vec![
        Sample { at: at(9, 0, 0), app: "Code".into(), title: "x".repeat(150), idle: false },
        Sample { at: at(9, 2, 0), app: "Chat".into(), title: "team".into(), idle: false },
        Sample { at: at(9, 2, 10), app: "Code".into(), title: "y".into(), idle: true },
    ];
    let agg = aggregate(&samples, None);
    let text = describe_for_llm("2026-09-11", &agg);
    let expected = format!(
        "Date: 2026-09-11\nTotal active time: 2 minutes (idle: 0 minutes)\nFirst activity: 09:00  Last activity: 09:02\nActive minutes per hour: 09h=2 \n\nFocused windows (minutes, app, window title), most time first:\n   2m  Code  —  {}\n",
        "x".repeat(140)
    );
    assert_eq!(text, expected);
}

#[test]
fn rows_with_bad_timestamps_are_skipped() {
    let rows = vec![
        SampleRow { at: "2026-09-11T09:00:00".into(), app: "A".into(), title: "t".into(), idle: 0 },
        SampleRow { at: "garbage".into(), app: "B".into(), title: "t".into(), idle: 0 },
        SampleRow { at: "2026-09-11T09:01:00".into(), app: "C".into(), title: "u".into(), idle: 1 },
    ];
    let s = load_samples(&rows);
    assert_eq!(s.len(), 2);
    assert_eq!(s[0].at, at(9, 0, 0));
    assert_eq!(s[1].app, "C");
    assert!(s[1].idle);
}

#[test]
fn rows_take_their_given_stamps() {
    let rows = vec![
        SampleRow { at: "ignored".into(), app: "A".into(), title: "t".into(), idle: 2 },
        SampleRow { at: "ignored".into(), app: "B".into(), title: "u".into(), idle: 0 },
        SampleRow { at: "ignored".into(), app: "C".into(), title: "v".into(), idle: 0 },
    ];
    let s = samples_from_stamps(&rows, &vec![Some(100), None, Some(160)]);
    assert_eq!(s.len(), 2);
    assert_eq!((s[0].at, s[0].app.as_str(), s[0].idle), (100, "A", true));
    assert_eq!((s[1].at, s[1].app.as_str(), s[1].title.as_str(), s[1].idle), (160, "C", "v", false));
}
