//! The records that the application stores and shows, the error type, and the
//! settings with their defaults.

use vstd::prelude::*;

verus! {

/// The kinds of failure the application reports.
#[derive(PartialEq, Eq, Structural, Clone, Copy, Debug)]
pub enum ErrorKind {
    NotFound,
    Validation,
    Internal,
    Ai,
    Fakturoid,
    Secret,
    Io,
}

/// An error with its user-facing message.
#[derive(Debug)]
pub enum AppError {
    NotFound(String),
    Validation(String),
    Internal(String),
    Ai(String),
    Fakturoid(String),
    Secret(String),
    Io(String),
}

impl View for AppError {
    type V = (ErrorKind, Seq<char>);

    open spec fn view(&self) -> (ErrorKind, Seq<char>) {
        match self {
            AppError::NotFound(m) => (ErrorKind::NotFound, m@),
            AppError::Validation(m) => (ErrorKind::Validation, m@),
            AppError::Internal(m) => (ErrorKind::Internal, m@),
            AppError::Ai(m) => (ErrorKind::Ai, m@),
            AppError::Fakturoid(m) => (ErrorKind::Fakturoid, m@),
            AppError::Secret(m) => (ErrorKind::Secret, m@),
            AppError::Io(m) => (ErrorKind::Io, m@),
        }
    }
}

/// The view of an optional string.
pub open spec fn opt_view(o: Option<String>) -> Option<Seq<char>> {
    match o {
        Some(s) => Some(s@),
        None => None,
    }
}

/// A stored record of work done for one client on one date.
#[derive(Debug, Clone)]
pub struct TimeEntry {
    pub id: i32,
    pub client_id: i32,
    /// YYYY-MM-DD
    pub date: String,
    pub duration_minutes: i32,
    /// HH:MM
    pub start_time: Option<String>,
    /// HH:MM
    pub end_time: Option<String>,
    pub description: String,
}

/// The fields of a time entry as the user submits them.
#[derive(Debug, Clone)]
pub struct TimeEntryInput {
    pub client_id: i32,
    pub date: String,
    /// Ignored (recomputed) when both start_time and end_time are present.
    pub duration_minutes: i32,
    pub start_time: Option<String>,
    pub end_time: Option<String>,
    pub description: String,
}

/// The plain values of a time entry input.
pub struct EntryView {
    pub client_id: i32,
    pub date: Seq<char>,
    pub duration_minutes: i32,
    pub start_time: Option<Seq<char>>,
    pub end_time: Option<Seq<char>>,
    pub description: Seq<char>,
}

impl View for TimeEntryInput {
    type V = EntryView;

    open spec fn view(&self) -> EntryView {
        EntryView {
            client_id: self.client_id,
            date: self.date@,
            duration_minutes: self.duration_minutes,
            start_time: opt_view(self.start_time),
            end_time: opt_view(self.end_time),
            description: self.description@,
        }
    }
}

/// Which entries a list, an export or an invoice covers.
#[derive(Debug, Clone)]
pub struct EntryFilter {
    pub client_id: Option<i32>,
    /// Inclusive, YYYY-MM-DD
    pub from: Option<String>,
    /// Inclusive, YYYY-MM-DD
    pub to: Option<String>,
}

} // verus!

verus! {

/// One focused window of a day, with its active minutes.
#[derive(Debug, Clone)]
pub struct ActivityBlock {
    pub app: String,
    pub title: String,
    pub minutes: i32,
}

/// Active minutes spent in one application.
#[derive(Debug, Clone)]
pub struct AppMinutes {
    pub app: String,
    pub minutes: i32,
}

/// Raw, un-summarised overview of a day: what the tracker saw.
#[derive(Debug, Clone)]
pub struct DayActivity {
    pub day: String,
    pub active_minutes: i32,
    pub idle_minutes: i32,
    pub first_active: Option<String>,
    pub last_active: Option<String>,
    pub sample_count: i32,
    /// Focused windows, most time first (capped).
    pub top_blocks: Vec<ActivityBlock>,
    /// Active minutes per app, most time first (complete).
    pub apps: Vec<AppMinutes>,
    /// Active minutes for each hour of the day, index 0..24.
    pub per_hour: Vec<i32>,
}

/// A day that has samples, with its active minutes.
#[derive(Debug, Clone)]
pub struct TrackedDay {
    pub day: String,
    pub active_minutes: i32,
    pub has_summary: bool,
}

} // verus!

verus! {

/// A client the freelancer works for and bills. The hourly rate and the workday length,
/// which are floating-point values, are kept beside this record.
#[derive(Debug, Clone)]
pub struct Client {
    pub id: i32,
    pub name: String,
    pub color: String,
    /// ISO 4217 code, e.g. "CZK".
    pub currency: String,
    /// Contractual workload share for this client, 0-100.
    pub pensum_percent: i32,
    pub vat_rate: i32,
    pub line_description: String,
    pub fakturoid_subject_id: Option<i32>,
    pub fakturoid_generator_id: Option<i32>,
    pub archived: bool,
}

} // verus!

verus! {

/// The language model services the application can talk to.
#[derive(PartialEq, Eq, Structural, Clone, Copy, Debug)]
pub enum AiProvider {
    Anthropic,
    Openai,
    Gemini,
    Openrouter,
    Ollama,
}

/// The user's settings.
#[derive(Debug, Clone)]
pub struct Settings {
    pub ai_provider: AiProvider,
    pub ai_model: String,
    pub ai_base_url: String,
    pub fakturoid_client_id: String,
    pub fakturoid_account_slug: String,
    pub fakturoid_contact_email: String,
    pub tracking_enabled: bool,
    pub idle_threshold_seconds: i32,
    pub ignored_apps: Vec<String>,
    pub backup_dir: String,
    pub launch_at_login: bool,
}

/// The views of a list of strings.
pub open spec fn string_views(v: Seq<String>) -> Seq<Seq<char>> {
    Seq::new(v.len(), |i: int| v[i]@)
}

impl Settings {
    /// The default settings, with the given default model name: Anthropic, no base URL,
    /// no Fakturoid account, tracking on with a 300-second idle threshold, the password
    /// manager, keychain and messaging apps ignored, the default backup folder, and launch
    /// at login.
    pub fn defaults(ai_model: String) -> (s: Settings)
        ensures
            s.ai_provider == AiProvider::Anthropic,
            s.ai_model == ai_model,
            s.ai_base_url@ == Seq::<char>::empty(),
            s.fakturoid_client_id@ == Seq::<char>::empty(),
            s.fakturoid_account_slug@ == Seq::<char>::empty(),
            s.fakturoid_contact_email@ == Seq::<char>::empty(),
            s.tracking_enabled,
            s.idle_threshold_seconds == 300,
            string_views(s.ignored_apps@) == seq!["1Password"@, "Keychain Access"@, "Messages"@],
            s.backup_dir@ == Seq::<char>::empty(),
            s.launch_at_login,
    {
        let ignored = vec![
            String::from_str("1Password"),
            String::from_str("Keychain Access"),
            String::from_str("Messages"),
        ];
        let s = Settings {
            ai_provider: AiProvider::Anthropic,
            ai_model,
            ai_base_url: String::new(),
            fakturoid_client_id: String::new(),
            fakturoid_account_slug: String::new(),
            fakturoid_contact_email: String::new(),
            tracking_enabled: true,
            idle_threshold_seconds: 300,
            ignored_apps: ignored,
            backup_dir: String::new(),
            launch_at_login: true,
        };
        assert(string_views(s.ignored_apps@) =~= seq!["1Password"@, "Keychain Access"@, "Messages"@]);
        s
    }
}

/// The secrets kept in the system keychain.
#[derive(PartialEq, Eq, Structural, Clone, Copy, Debug)]
pub enum SecretKey {
    FakturoidClientSecret,
    AiApiKey,
}

impl SecretKey {
    /// The keychain account name of the secret.
    pub fn as_str(self) -> (s: &'static str)
        ensures
            s@ == match self {
                SecretKey::FakturoidClientSecret => "fakturoid_client_secret"@,
                SecretKey::AiApiKey => "ai_api_key"@,
            },
    {
        match self {
            SecretKey::FakturoidClientSecret => "fakturoid_client_secret",
            SecretKey::AiApiKey => "ai_api_key",
        }
    }
}

/// A proposed time entry for a day.
#[derive(Debug, Clone)]
pub struct Suggestion {
    pub start_time: Option<String>,
    pub end_time: Option<String>,
    pub duration_minutes: i32,
    pub description: String,
}

/// A Fakturoid subject (the party an invoice is addressed to).
#[derive(Debug, Clone)]
pub struct FakturoidSubject {
    pub id: i32,
    pub name: String,
    pub registration_no: Option<String>,
}

/// A Fakturoid invoice template.
#[derive(Debug, Clone)]
pub struct FakturoidGenerator {
    pub id: i32,
    pub name: String,
    pub subject_id: Option<i32>,
}

/// A Fakturoid account the user can invoice from.
#[derive(Debug, Clone)]
pub struct FakturoidAccount {
    pub slug: String,
    pub name: String,
}

/// A backup file of the database.
#[derive(Debug, Clone)]
pub struct BackupFile {
    pub path: String,
    pub name: String,
    pub size_bytes: i32,
    pub created_at: String,
}

} // verus!

verus! {

/// A client's fields as the user submits them, without the floating-point hourly rate
/// and workday length.
#[derive(Debug, Clone)]
pub struct ClientInput {
    pub name: String,
    pub color: String,
    pub currency: String,
    pub pensum_percent: i32,
    pub vat_rate: i32,
    pub line_description: String,
    pub fakturoid_subject_id: Option<i32>,
    pub fakturoid_generator_id: Option<i32>,
    pub archived: bool,
}

/// One day's summary tag with its minutes.
#[derive(Debug, Clone)]
pub struct TagMinutes {
    pub tag: String,
    pub minutes: i32,
}

/// A stored summary of one day.
#[derive(Debug, Clone)]
pub struct DaySummary {
    pub day: String,
    pub active_minutes: i32,
    pub description: String,
    pub tags: Vec<TagMinutes>,
    pub generated_at: String,
}

/// A created Fakturoid invoice: its id, number, web address and total as Fakturoid gives it.
#[derive(Debug, Clone)]
pub struct CreatedInvoice {
    pub id: i32,
    pub number: String,
    pub html_url: String,
    pub total: String,
}

/// Minutes per client and day.
#[derive(Debug, Clone)]
pub struct DayTotal {
    pub date: String,
    pub client_id: i32,
    pub minutes: i32,
}

} // verus!
