//! One stored credential, and the summary of it that listings show.

use crate::secret::Secret;
use crate::timestamp::Timestamp;
use vstd::prelude::*;

verus! {

/// One credential: who it belongs to, the secret itself, and when it was
/// created and last replaced.
///
/// The id never changes. The other fields change only when the vault
/// replaces the whole entry.
#[derive(Debug)]
pub struct PasswordEntry {
    id: String,
    username: Option<String>,
    password: Secret,
    url: Option<String>,
    description: Option<String>,
    created_at: Timestamp,
    updated_at: Option<Timestamp>,
}

/// What a `PasswordEntry` holds.
pub struct EntryView {
    pub id: Seq<char>,
    pub username: Option<Seq<char>>,
    pub secret: Seq<char>,
    pub url: Option<Seq<char>>,
    pub description: Option<Seq<char>>,
    pub created_at: Timestamp,
    pub updated_at: Option<Timestamp>,
}

/// The non-secret details of an entry that a verbose listing adds.
#[derive(Debug)]
pub struct EntryDetails {
    pub url: Option<String>,
    pub description: Option<String>,
    pub created_at: Timestamp,
    pub updated_at: Option<Timestamp>,
}

/// What an `EntryDetails` holds.
pub struct DetailsView {
    pub url: Option<Seq<char>>,
    pub description: Option<Seq<char>>,
    pub created_at: Timestamp,
    pub updated_at: Option<Timestamp>,
}

/// One line of a listing. It has no field for the secret.
#[derive(Debug)]
pub struct EntrySummary {
    pub id: String,
    pub username: Option<String>,
    /// Present in verbose listings only.
    pub details: Option<EntryDetails>,
}

/// What an `EntrySummary` holds.
pub struct SummaryView {
    pub id: Seq<char>,
    pub username: Option<Seq<char>>,
    pub details: Option<DetailsView>,
}

/// The characters of an optional string.
pub open spec fn text_view(text: Option<String>) -> Option<Seq<char>> {
    match text {
        Some(s) => Some(s@),
        None => None,
    }
}

/// The text, or the empty string where there is none.
pub open spec fn text_or_empty(text: Option<Seq<char>>) -> Seq<char> {
    match text {
        Some(s) => s,
        None => Seq::empty(),
    }
}

impl View for EntryDetails {
    type V = DetailsView;

    open spec fn view(&self) -> DetailsView {
        DetailsView {
            url: text_view(self.url),
            description: text_view(self.description),
            created_at: self.created_at,
            updated_at: self.updated_at,
        }
    }
}

impl View for EntrySummary {
    type V = SummaryView;

    open spec fn view(&self) -> SummaryView {
        SummaryView {
            id: self.id@,
            username: text_view(self.username),
            details: match self.details {
                Some(d) => Some(d@),
                None => None,
            },
        }
    }
}

impl View for PasswordEntry {
    type V = EntryView;

    closed spec fn view(&self) -> EntryView {
        EntryView {
            id: self.id@,
            username: text_view(self.username),
            secret: self.password@,
            url: text_view(self.url),
            description: text_view(self.description),
            created_at: self.created_at,
            updated_at: self.updated_at,
        }
    }
}

impl DetailsView {
    /// When the entry last changed: the time of its last replacement, or of
    /// its creation if it was never replaced.
    pub open spec fn last_modified(self) -> Timestamp {
        match self.updated_at {
            Some(t) => t,
            None => self.created_at,
        }
    }
}

impl EntryView {
    /// The entry as a newly created one holds it: never replaced.
    pub open spec fn created(
        id: Seq<char>,
        username: Option<Seq<char>>,
        secret: Seq<char>,
        url: Option<Seq<char>>,
        description: Option<Seq<char>>,
        at: Timestamp,
    ) -> EntryView {
        EntryView { id, username, secret, url, description, created_at: at, updated_at: None }
    }

    /// This entry as it is stored when it replaces `old` at time `now`: it
    /// keeps the creation time of `old` and records `now` as its update.
    pub open spec fn superseding(self, old: EntryView, now: Timestamp) -> EntryView {
        EntryView {
            id: self.id,
            username: self.username,
            secret: self.secret,
            url: self.url,
            description: self.description,
            created_at: old.created_at,
            updated_at: Some(now),
        }
    }

    /// This entry with another secret.
    pub open spec fn with_secret(self, secret: Seq<char>) -> EntryView {
        EntryView {
            id: self.id,
            username: self.username,
            secret,
            url: self.url,
            description: self.description,
            created_at: self.created_at,
            updated_at: self.updated_at,
        }
    }

    /// The verbose details of this entry.
    pub open spec fn details(self) -> DetailsView {
        DetailsView {
            url: self.url,
            description: self.description,
            created_at: self.created_at,
            updated_at: self.updated_at,
        }
    }

    /// The line of a listing for this entry: id and username, and in a
    /// verbose listing the other non-secret fields.
    pub open spec fn summarized(self, verbose: bool) -> SummaryView {
        SummaryView {
            id: self.id,
            username: self.username,
            details: if verbose {
                Some(self.details())
            } else {
                None
            },
        }
    }

    /// The text that discloses this entry, secret included.
    pub open spec fn shown(self) -> Seq<char> {
        "id: "@ + self.id + "\nusername: "@ + text_or_empty(self.username) + "\npassword: "@
            + self.secret
    }
}

/// A copy of an optional string.
fn clone_text(text: &Option<String>) -> (copy: Option<String>)
    ensures
        text_view(copy) == text_view(*text),
{
    match text {
        Some(s) => Some(s.clone()),
        None => None,
    }
}

impl EntryDetails {
    /// When the entry last changed: the time of its last replacement, or of
    /// its creation if it was never replaced.
    pub fn last_modified(&self) -> (at: Timestamp)
        ensures
            at == self@.last_modified(),
    {
        match self.updated_at {
            Some(t) => t,
            None => self.created_at,
        }
    }
}

impl PasswordEntry {
    /// An entry with exactly these fields.
    pub fn from_parts(
        id: String,
        username: Option<String>,
        password: Secret,
        url: Option<String>,
        description: Option<String>,
        created_at: Timestamp,
        updated_at: Option<Timestamp>,
    ) -> (entry: PasswordEntry)
        ensures
            entry@ == (EntryView {
                id: id@,
                username: text_view(username),
                secret: password@,
                url: text_view(url),
                description: text_view(description),
                created_at,
                updated_at,
            }),
    {
        PasswordEntry { id, username, password, url, description, created_at, updated_at }
    }

    /// A new entry, created now and never replaced.
    pub fn new(
        id: String,
        username: Option<String>,
        password: Secret,
        url: Option<String>,
        description: Option<String>,
    ) -> (entry: PasswordEntry)
        ensures
            entry@ == EntryView::created(
                id@,
                text_view(username),
                password@,
                text_view(url),
                text_view(description),
                entry@.created_at,
            ),
    {
        PasswordEntry::from_parts(id, username, password, url, description, Timestamp::now(), None)
    }

    /// The entry's id.
    pub fn id(&self) -> (id: &str)
        ensures
            id@ == self@.id,
    {
        self.id.as_str()
    }

    /// The username, if the entry has one.
    pub fn username(&self) -> (username: &Option<String>)
        ensures
            text_view(*username) == self@.username,
    {
        &self.username
    }

    /// The credential itself, still wrapped: reading it takes a call of
    /// `Secret::expose`.
    pub fn password(&self) -> (password: &Secret)
        ensures
            password@ == self@.secret,
    {
        &self.password
    }

    /// The url, if the entry has one.
    pub fn url(&self) -> (url: &Option<String>)
        ensures
            text_view(*url) == self@.url,
    {
        &self.url
    }

    /// The description, if the entry has one.
    pub fn description(&self) -> (description: &Option<String>)
        ensures
            text_view(*description) == self@.description,
    {
        &self.description
    }

    /// When the entry was first created.
    pub fn created_at(&self) -> (at: Timestamp)
        ensures
            at == self@.created_at,
    {
        self.created_at
    }

    /// When the entry was last replaced, if it ever was.
    pub fn updated_at(&self) -> (at: Option<Timestamp>)
        ensures
            at == self@.updated_at,
    {
        self.updated_at
    }

    /// This entry as it is stored when it replaces `old` at time `now`.
    pub fn superseding(self, old: &PasswordEntry, now: Timestamp) -> (entry: PasswordEntry)
        ensures
            entry@ == self@.superseding(old@, now),
    {
        PasswordEntry {
            id: self.id,
            username: self.username,
            password: self.password,
            url: self.url,
            description: self.description,
            created_at: old.created_at,
            updated_at: Some(now),
        }
    }

    /// The line of a listing for this entry. The secret is not read.
    pub fn summary(&self, verbose: bool) -> (summary: EntrySummary)
        ensures
            summary@ == self@.summarized(verbose),
    {
        let details = if verbose {
            Some(
                EntryDetails {
                    url: clone_text(&self.url),
                    description: clone_text(&self.description),
                    created_at: self.created_at,
                    updated_at: self.updated_at,
                },
            )
        } else {
            None
        };
        EntrySummary { id: self.id.clone(), username: clone_text(&self.username), details }
    }

    /// The text that discloses this entry on screen, the secret in plain
    /// sight.
    pub fn show(&self) -> (text: String)
        ensures
            text@ == self@.shown(),
    {
        let mut text = String::from_str("id: ");
        text.append(self.id.as_str());
        text.append("\nusername: ");
        if let Some(name) = &self.username {
            text.append(name.as_str());
        }
        text.append("\npassword: ");
        text.append(self.password.expose());
        text
    }
}

/// Two entries that differ in nothing but their secrets have the same
/// summary: a listing, verbose or not, tells nothing of a secret.
pub proof fn lemma_summary_hides_secret(entry: EntryView, secret: Seq<char>, verbose: bool)
    ensures
        entry.with_secret(secret).summarized(verbose) == entry.summarized(verbose),
{
}

} // verus!
