//! The records the service works with: users, sessions, claims, the
//! authenticated principal, and the logged entries.

use vstd::prelude::*;

use crate::text::same_text;

verus! {

/// The authenticated identity of a request: a numeric user id and a display
/// name. It is resolved once per request and never changed afterwards.
#[derive(Clone, Debug, PartialEq, Eq)]
pub struct Principal {
    pub user_id: i32,
    pub name: String,
}

/// A stored account: the user id, the unique user name and the salted,
/// one-way hash of the password.
#[derive(Clone, Debug, PartialEq, Eq)]
pub struct User {
    pub id: i32,
    pub name: String,
    pub password: String,
}

/// A stored session: its id, the user that owns it and the random key that
/// the client presents as its bearer token.
#[derive(Clone, Debug, PartialEq, Eq)]
pub struct Session {
    pub id: i32,
    pub user_id: i32,
    pub key: String,
}

/// What a signed claims token carries: the subject (the user id), the
/// display name and the expiry in seconds since the Unix epoch.
#[derive(Clone, Debug, PartialEq, Eq)]
pub struct Claims {
    pub sub: i32,
    pub name: String,
    pub exp: i64,
}

/// The principal that a set of claims denotes.
pub open spec fn principal_of(c: Claims) -> Principal {
    Principal { user_id: c.sub, name: c.name }
}

impl Claims {
    /// The principal these claims denote: the subject and the display name.
    pub fn into_principal(self) -> (r: Principal)
        ensures
            r == principal_of(self),
    {
        Principal { user_id: self.sub, name: self.name }
    }
}

/// The kind of a logged entry.
#[derive(Clone, Copy, Debug, PartialEq, Eq)]
pub enum EntryKind {
    Work,
    Training,
    School,
}

/// The label under which a kind is stored.
pub open spec fn kind_label(k: EntryKind) -> Seq<char> {
    match k {
        EntryKind::Work => "work"@,
        EntryKind::Training => "training"@,
        EntryKind::School => "school"@,
    }
}

/// The kind that a stored label names, if any.
pub open spec fn kind_of_label(s: Seq<char>) -> Option<EntryKind> {
    if s == "work"@ {
        Some(EntryKind::Work)
    } else if s == "training"@ {
        Some(EntryKind::Training)
    } else if s == "school"@ {
        Some(EntryKind::School)
    } else {
        None
    }
}

impl EntryKind {
    /// The label under which this kind is stored.
    pub fn to_sql(&self) -> (r: &'static str)
        ensures
            r@ == kind_label(*self),
    {
        match self {
            EntryKind::Work => "work",
            EntryKind::Training => "training",
            EntryKind::School => "school",
        }
    }

    /// The kind that a stored label names; `None` for any other text.
    pub fn from_sql(label: &str) -> (r: Option<EntryKind>)
        ensures
            r == kind_of_label(label@),
    {
        if same_text(label, "work") {
            Some(EntryKind::Work)
        } else if same_text(label, "training") {
            Some(EntryKind::Training)
        } else if same_text(label, "school") {
            Some(EntryKind::School)
        } else {
            None
        }
    }
}

/// A calendar day, as the number of days from the start of the common era
/// (0001-01-01 is day 1).
#[derive(Clone, Copy, Debug, PartialEq, Eq)]
pub struct Date {
    pub days_from_ce: i32,
}

/// A logged entry as stored.
#[derive(Clone, Debug, PartialEq, Eq)]
pub struct Entry {
    pub id: i32,
    pub title: String,
    pub description: Option<String>,
    pub spend_time: i32,
    pub logdate: Date,
    pub entry_type: EntryKind,
}

/// A logged entry as submitted, before the store gives it an id.
#[derive(Clone, Debug, PartialEq, Eq)]
pub struct EntryForm {
    pub title: String,
    pub description: Option<String>,
    pub spend_time: i32,
    pub logdate: Date,
    pub entry_type: EntryKind,
}

} // verus!
