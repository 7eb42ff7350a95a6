//! The Fakturoid client's own rules: how it identifies itself, when it may ask for a
//! token and for how long a token is kept, how many subject pages it reads, and how the
//! listed accounts, subjects and generators are taken over.

use vstd::prelude::*;
use crate::models::{opt_view, AppError, ErrorKind, FakturoidAccount, FakturoidGenerator, FakturoidSubject};
use crate::text::{chars_of, push_str, string_of, trim, trim_chars};

verus! {

pub const BASE_URL: &'static str = "https://app.fakturoid.cz/api/v3";

/// Token lifetime assumed when the token response gives none.
pub fn default_expiry() -> (s: u64)
    ensures
        s == 7200,
{
    7200
}

/// The OAuth client credentials and the contact address sent in the User-Agent.
#[derive(Debug, Clone)]
pub struct Credentials {
    pub client_id: String,
    pub client_secret: String,
    pub contact_email: String,
}

/// The User-Agent: "Flowrly (<contact>)", the contact being the trimmed e-mail or a
/// no-reply address when it is blank.
pub open spec fn user_agent_text(email: Seq<char>) -> Seq<char> {
    "Flowrly ("@ + (if trim(email).len() == 0 { "no-reply@flowrly.local"@ } else { trim(email) }) + ")"@
}

pub fn user_agent(creds: &Credentials) -> (ua: String)
    ensures
        ua@ == user_agent_text(creds.contact_email@),
{
    let t = trim_chars(&chars_of(creds.contact_email.as_str()));
    let mut v: Vec<char> = Vec::new();
    push_str(&mut v, "Flowrly (");
    if t.len() == 0 {
        push_str(&mut v, "no-reply@flowrly.local");
    } else {
        crate::invoice::push_all(&mut v, &t);
    }
    push_str(&mut v, ")");
    string_of(&v)
}

/// A token may only be requested with a client ID and a secret.
pub fn check_credentials(creds: &Credentials) -> (r: Result<(), AppError>)
    ensures
        trim(creds.client_id@).len() > 0 && trim(creds.client_secret@).len() > 0 ==> r is Ok,
        !(trim(creds.client_id@).len() > 0 && trim(creds.client_secret@).len() > 0) ==> (r matches Err(e) && e@ == (
            ErrorKind::Fakturoid,
            "Fakturoid client ID / secret are not set. Add them in Settings."@,
        )),
{
    if trim_chars(&chars_of(creds.client_id.as_str())).len() == 0 || trim_chars(
        &chars_of(creds.client_secret.as_str()),
    ).len() == 0 {
        return Err(AppError::Fakturoid(String::from_str("Fakturoid client ID / secret are not set. Add them in Settings.")));
    }
    Ok(())
}

/// How long a token is kept: its lifetime less a minute, never below zero.
pub fn token_lifetime(expires_in: u64) -> (secs: u64)
    ensures
        secs == if expires_in >= 60 { expires_in - 60 } else { 0 },
{
    if expires_in >= 60 {
        expires_in - 60
    } else {
        0
    }
}

/// Most subject pages read.
pub const SUBJECT_PAGES: u32 = 10;

/// Subjects per full page.
pub const SUBJECT_PAGE_SIZE: usize = 40;

/// Whether to read the page after `page` (pages count from 1): only when this page was a
/// full list and the page limit is not reached. `listed` is `None` when the answer was not
/// a list.
pub fn more_subject_pages(page: u32, listed: Option<usize>) -> (more: bool)
    ensures
        more == (page < SUBJECT_PAGES && (listed matches Some(n) && n >= SUBJECT_PAGE_SIZE)),
{
    match listed {
        Some(n) => page < SUBJECT_PAGES && n >= SUBJECT_PAGE_SIZE,
        None => false,
    }
}

/// An optional text, or empty.
pub open spec fn text_or_empty(o: Option<Seq<char>>) -> Seq<char> {
    match o {
        Some(s) => s,
        None => Seq::empty(),
    }
}

fn owned_or_empty(o: &Option<String>) -> (s: String)
    ensures
        s@ == text_or_empty(opt_view(*o)),
{
    match o {
        Some(t) => t.clone(),
        None => String::new(),
    }
}

/// A listed account: its slug and name, as read from the answer.
pub struct AccountItem {
    pub slug: Option<String>,
    pub name: Option<String>,
}

/// The accounts among the first `n` items: those with a slug, the name empty when missing.
pub open spec fn accounts_of(items: Seq<AccountItem>, n: int) -> Seq<(Seq<char>, Seq<char>)>
    decreases n,
{
    if n <= 0 {
        Seq::empty()
    } else {
        match opt_view(items[n - 1].slug) {
            Some(s) => accounts_of(items, n - 1).push((s, text_or_empty(opt_view(items[n - 1].name)))),
            None => accounts_of(items, n - 1),
        }
    }
}

pub fn accounts(items: &Vec<AccountItem>) -> (r: Vec<FakturoidAccount>)
    ensures
        r@.len() == accounts_of(items@, items@.len() as int).len(),
        forall|i: int|
            0 <= i < r@.len() ==> ((#[trigger] r@[i]).slug@, r@[i].name@) == accounts_of(items@, items@.len() as int)[i],
{
    let mut r: Vec<FakturoidAccount> = Vec::new();
    for k in 0..items.len()
        invariant
            r@.len() == accounts_of(items@, k as int).len(),
            forall|i: int| 0 <= i < r@.len() ==> ((#[trigger] r@[i]).slug@, r@[i].name@) == accounts_of(items@, k as int)[i],
    {
        match &items[k].slug {
            Some(s) => {
                r.push(FakturoidAccount { slug: s.clone(), name: owned_or_empty(&items[k].name) });
            },
            None => {},
        }
    }
    r
}

/// A listed subject: its id, name and registration number, as read from the answer.
pub struct SubjectItem {
    pub id: Option<i64>,
    pub name: Option<String>,
    pub registration_no: Option<String>,
}

/// The subjects among the first `n` items: those with an id (taken as `i32`), the name
/// empty when missing.
pub open spec fn subjects_of(items: Seq<SubjectItem>, n: int) -> Seq<(i32, Seq<char>, Option<Seq<char>>)>
    decreases n,
{
    if n <= 0 {
        Seq::empty()
    } else {
        match items[n - 1].id {
            Some(id) => subjects_of(items, n - 1).push(
                (id as i32, text_or_empty(opt_view(items[n - 1].name)), opt_view(items[n - 1].registration_no)),
            ),
            None => subjects_of(items, n - 1),
        }
    }
}

pub fn subjects(items: &Vec<SubjectItem>) -> (r: Vec<FakturoidSubject>)
    ensures
        r@.len() == subjects_of(items@, items@.len() as int).len(),
        forall|i: int|
            0 <= i < r@.len() ==> ((#[trigger] r@[i]).id, r@[i].name@, opt_view(r@[i].registration_no))
                == subjects_of(items@, items@.len() as int)[i],
{
    let mut r: Vec<FakturoidSubject> = Vec::new();
    for k in 0..items.len()
        invariant
            r@.len() == subjects_of(items@, k as int).len(),
            forall|i: int|
                0 <= i < r@.len() ==> ((#[trigger] r@[i]).id, r@[i].name@, opt_view(r@[i].registration_no))
                    == subjects_of(items@, k as int)[i],
    {
        match items[k].id {
            Some(id) => {
                r.push(
                    FakturoidSubject {
                        id: #[verifier::truncate]
                        (id as i32),
                        name: owned_or_empty(&items[k].name),
                        registration_no: items[k].registration_no.clone(),
                    },
                );
            },
            None => {},
        }
    }
    r
}

/// A listed generator: its id, name and subject, as read from the answer.
pub struct GeneratorItem {
    pub id: Option<i64>,
    pub name: Option<String>,
    pub subject_id: Option<i64>,
}

pub open spec fn opt_i32(o: Option<i64>) -> Option<i32> {
    match o {
        Some(v) => Some(v as i32),
        None => None,
    }
}

/// The generators among the first `n` items: those with an id (ids taken as `i32`), the
/// name empty when missing.
pub open spec fn generators_of(items: Seq<GeneratorItem>, n: int) -> Seq<(i32, Seq<char>, Option<i32>)>
    decreases n,
{
    if n <= 0 {
        Seq::empty()
    } else {
        match items[n - 1].id {
            Some(id) => generators_of(items, n - 1).push(
                (id as i32, text_or_empty(opt_view(items[n - 1].name)), opt_i32(items[n - 1].subject_id)),
            ),
            None => generators_of(items, n - 1),
        }
    }
}

pub fn generators(items: &Vec<GeneratorItem>) -> (r: Vec<FakturoidGenerator>)
    ensures
        r@.len() == generators_of(items@, items@.len() as int).len(),
        forall|i: int|
            0 <= i < r@.len() ==> ((#[trigger] r@[i]).id, r@[i].name@, r@[i].subject_id) == generators_of(
                items@,
                items@.len() as int,
            )[i],
{
    let mut r: Vec<FakturoidGenerator> = Vec::new();
    for k in 0..items.len()
        invariant
            r@.len() == generators_of(items@, k as int).len(),
            forall|i: int|
                0 <= i < r@.len() ==> ((#[trigger] r@[i]).id, r@[i].name@, r@[i].subject_id) == generators_of(
                    items@,
                    k as int,
                )[i],
    {
        match items[k].id {
            Some(id) => {
                let subject_id = match items[k].subject_id {
                    Some(v) => Some(
                        #[verifier::truncate]
                        (v as i32),
                    ),
                    None => None,
                };
                r.push(
                    FakturoidGenerator {
                        id: #[verifier::truncate]
                        (id as i32),
                        name: owned_or_empty(&items[k].name),
                        subject_id,
                    },
                );
            },
            None => {},
        }
    }
    r
}

} // verus!
