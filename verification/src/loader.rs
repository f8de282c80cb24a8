//! Loading a text: a static file is read; a feed is fetched from the remote
//! service and, where that gives no JSON, its last good snapshot is read
//! instead. The library decides, the caller does the reading and sending.

use crate::errors::{Failure, PortalError};
use crate::json::{check_if_json, json_document};
use crate::text::{decimal, to_decimal};
use vstd::prelude::*;

verus! {

/// The texts that a page is made from.
#[derive(Clone, Copy, Debug, PartialEq, Eq, Structural)]
pub enum TxtFiles {
    ActiveRedirections,
    JobRedirections,
    MailmanLists,
    ElectedUserJson,
    SecondaryElectionJson,
}

/// What the caller is asked to do next.
#[derive(Debug, PartialEq, Eq)]
pub enum Request {
    /// Fetch the feed of that number from the remote service.
    Fetch { feed: u16 },
    /// Write `content` to the file at `path`, replacing what is there.
    Write { path: String, content: String },
    /// Read the file at `path`.
    Read { path: String },
}

/// How a request ended.
#[derive(Debug, PartialEq, Eq)]
pub enum Reply {
    Fetched(Result<String, PortalError>),
    Written(Result<(), PortalError>),
    ReadBack(Result<String, PortalError>),
}

/// A load in progress: what it waits for, or how it ended.
#[derive(Debug, PartialEq, Eq)]
pub enum Loader {
    /// The feed has been asked for; `path` is where its snapshot lies.
    Fetching { path: String, feed: u16 },
    /// The fetched `payload` is being saved as the new snapshot.
    Writing { path: String, payload: String },
    /// The file at `path` is being read.
    Reading { path: String },
    Done(Result<String, PortalError>),
}

/// The mathematical value of a [`Request`].
pub enum Ask {
    Fetch { feed: u16 },
    Write { path: Seq<char>, content: Seq<char> },
    Read { path: Seq<char> },
}

/// The mathematical value of a [`Reply`].
pub enum Answer {
    Fetched(Result<Seq<char>, Failure>),
    Written(Result<(), Failure>),
    ReadBack(Result<Seq<char>, Failure>),
}

/// The mathematical value of a [`Loader`].
pub enum Stage {
    Fetching { path: Seq<char>, feed: u16 },
    Writing { path: Seq<char>, payload: Seq<char> },
    Reading { path: Seq<char> },
    Done(Result<Seq<char>, Failure>),
}

/// The value of a text or a failure.
pub open spec fn text_outcome(r: Result<String, PortalError>) -> Result<Seq<char>, Failure> {
    match r {
        Ok(text) => Ok(text@),
        Err(e) => Err(e@),
    }
}

/// The value of a success or a failure.
pub open spec fn unit_outcome(r: Result<(), PortalError>) -> Result<(), Failure> {
    match r {
        Ok(_) => Ok(()),
        Err(e) => Err(e@),
    }
}

impl View for Request {
    type V = Ask;

    open spec fn view(&self) -> Ask {
        match self {
            Request::Fetch { feed } => Ask::Fetch { feed: *feed },
            Request::Write { path, content } => Ask::Write { path: path@, content: content@ },
            Request::Read { path } => Ask::Read { path: path@ },
        }
    }
}

impl View for Reply {
    type V = Answer;

    open spec fn view(&self) -> Answer {
        match self {
            Reply::Fetched(r) => Answer::Fetched(text_outcome(*r)),
            Reply::Written(r) => Answer::Written(unit_outcome(*r)),
            Reply::ReadBack(r) => Answer::ReadBack(text_outcome(*r)),
        }
    }
}

impl View for Loader {
    type V = Stage;

    open spec fn view(&self) -> Stage {
        match self {
            Loader::Fetching { path, feed } => Stage::Fetching { path: path@, feed: *feed },
            Loader::Writing { path, payload } => Stage::Writing { path: path@, payload: payload@ },
            Loader::Reading { path } => Stage::Reading { path: path@ },
            Loader::Done(r) => Stage::Done(text_outcome(*r)),
        }
    }
}

impl TxtFiles {
    /// Where the text lies on disk: the file itself, or a feed's snapshot.
    pub open spec fn spec_path(self) -> Seq<char> {
        match self {
            TxtFiles::ActiveRedirections => "./data/mails.txt"@,
            TxtFiles::JobRedirections => "./data/aemtermails.txt"@,
            TxtFiles::MailmanLists => "./data/mailmanmails.txt"@,
            TxtFiles::ElectedUserJson => "./tmp/aemter.json"@,
            TxtFiles::SecondaryElectionJson => "./tmp/aemter27.json"@,
        }
    }

    /// The number of the feed, where the text is one.
    pub open spec fn spec_feed(self) -> Option<u16> {
        match self {
            TxtFiles::ElectedUserJson => Some(170u16),
            TxtFiles::SecondaryElectionJson => Some(27u16),
            _ => None,
        }
    }

    /// Where the text lies on disk.
    pub fn path(self) -> (r: &'static str)
        ensures
            r@ == self.spec_path(),
    {
        match self {
            TxtFiles::ActiveRedirections => "./data/mails.txt",
            TxtFiles::JobRedirections => "./data/aemtermails.txt",
            TxtFiles::MailmanLists => "./data/mailmanmails.txt",
            TxtFiles::ElectedUserJson => "./tmp/aemter.json",
            TxtFiles::SecondaryElectionJson => "./tmp/aemter27.json",
        }
    }

    /// The number of the feed, where the text is one.
    pub fn feed(self) -> (r: Option<u16>)
        ensures
            r == self.spec_feed(),
    {
        match self {
            TxtFiles::ElectedUserJson => Some(170u16),
            TxtFiles::SecondaryElectionJson => Some(27u16),
            _ => None,
        }
    }
}

impl Answer {
    /// The answer brings a fetched payload that is JSON.
    pub open spec fn brings_json(self) -> bool {
        self matches Answer::Fetched(Ok(payload)) && json_document(payload) is Some
    }
}

impl Stage {
    /// What the load waits for; nothing once it is done.
    pub open spec fn pending(self) -> Option<Ask> {
        match self {
            Stage::Fetching { path, feed } => Some(Ask::Fetch { feed }),
            Stage::Writing { path, payload } => Some(Ask::Write { path, content: payload }),
            Stage::Reading { path } => Some(Ask::Read { path }),
            Stage::Done(_) => None,
        }
    }

    /// The stage after `answer`, where `well_formed` says whether a fetched
    /// payload is JSON.
    ///
    /// A fetched payload that is JSON is saved and then returned, whether or
    /// not the saving succeeds. After any other end of the fetch the snapshot
    /// is read, and what the reading gives is the result. An answer to
    /// something that was not asked changes nothing.
    pub open spec fn advance(self, answer: Answer, well_formed: bool) -> Stage {
        match (self, answer) {
            (Stage::Fetching { path, feed }, Answer::Fetched(Ok(payload))) => if well_formed {
                Stage::Writing { path, payload }
            } else {
                Stage::Reading { path }
            },
            (Stage::Fetching { path, feed }, Answer::Fetched(Err(_))) => Stage::Reading { path },
            (Stage::Writing { path, payload }, Answer::Written(_)) => Stage::Done(Ok(payload)),
            (Stage::Reading { path }, Answer::ReadBack(r)) => Stage::Done(r),
            (stage, _) => stage,
        }
    }

    /// The stage after `answer`.
    pub open spec fn step(self, answer: Answer) -> Stage {
        self.advance(answer, answer.brings_json())
    }

    /// The stage in which the load of `file` starts.
    pub open spec fn start(file: TxtFiles) -> Stage {
        match file.spec_feed() {
            Some(feed) => Stage::Fetching { path: file.spec_path(), feed },
            None => Stage::Reading { path: file.spec_path() },
        }
    }
}

/// Starts the load of a feed: the remote service is asked first, and the
/// snapshot at `filepath` stands by.
pub fn read_query_with_fallback_file(filepath: &str, sewobe_id: u16) -> (r: Loader)
    ensures
        r@ == (Stage::Fetching { path: filepath@, feed: sewobe_id }),
{
    Loader::Fetching { path: String::from_str(filepath), feed: sewobe_id }
}

/// Starts the load of `file_id`.
pub fn load(file_id: TxtFiles) -> (r: Loader)
    ensures
        r@ == Stage::start(file_id),
{
    match file_id.feed() {
        Some(feed) => read_query_with_fallback_file(file_id.path(), feed),
        None => Loader::Reading { path: String::from_str(file_id.path()) },
    }
}

impl Loader {
    /// What the caller has to do next; nothing once the load is done.
    pub fn pending(&self) -> (r: Option<Request>)
        ensures
            match r {
                Some(request) => self@.pending() == Some(request@),
                None => self@.pending() is None,
            },
    {
        match self {
            Loader::Fetching { path, feed } => Some(Request::Fetch { feed: *feed }),
            Loader::Writing { path, payload } => Some(
                Request::Write { path: path.clone(), content: payload.clone() },
            ),
            Loader::Reading { path } => Some(Request::Read { path: path.clone() }),
            Loader::Done(_) => None,
        }
    }

    /// The load after `reply`, where `well_formed` says whether a fetched
    /// payload is JSON.
    pub fn advance(self, reply: Reply, well_formed: bool) -> (next: Loader)
        ensures
            next@ == self@.advance(reply@, well_formed),
    {
        match (self, reply) {
            (Loader::Fetching { path, feed }, Reply::Fetched(Ok(payload))) => if well_formed {
                Loader::Writing { path, payload }
            } else {
                Loader::Reading { path }
            },
            (Loader::Fetching { path, feed }, Reply::Fetched(Err(_))) => Loader::Reading { path },
            (Loader::Writing { path, payload }, Reply::Written(_)) => Loader::Done(Ok(payload)),
            (Loader::Reading { path }, Reply::ReadBack(r)) => Loader::Done(r),
            (stage, _) => stage,
        }
    }

    /// The load after `reply`.
    pub fn step(self, reply: Reply) -> (next: Loader)
        ensures
            next@ == self@.step(reply@),
    {
        let well_formed = match (&self, &reply) {
            (Loader::Fetching { .. }, Reply::Fetched(Ok(payload))) => check_if_json(
                payload.as_str(),
            ),
            _ => false,
        };
        self.advance(reply, well_formed)
    }

    /// The text, or why there is none, once the load is done.
    pub fn finish(self) -> (r: Option<Result<String, PortalError>>)
        ensures
            match r {
                Some(outcome) => self@ == Stage::Done(text_outcome(outcome)),
                None => !(self@ is Done),
            },
    {
        match self {
            Loader::Done(outcome) => Some(outcome),
            _ => None,
        }
    }
}

/// A field of the form that a fetch sends.
#[derive(Debug, PartialEq, Eq)]
pub struct FormField {
    pub name: String,
    pub value: String,
}

/// The form that asks the remote service for a feed: the user's name, the
/// password, and the number of the feed in decimal.
pub fn query_form(username: &str, password: &str, id: u16) -> (r: Vec<FormField>)
    ensures
        r@.len() == 3,
        r@[0].name@ == "USERNAME"@,
        r@[0].value@ == username@,
        r@[1].name@ == "PASSWORT"@,
        r@[1].value@ == password@,
        r@[2].name@ == "AUSWERTUNG_ID"@,
        r@[2].value@ == decimal(id as nat),
{
    let mut r: Vec<FormField> = Vec::new();
    r.push(FormField { name: String::from_str("USERNAME"), value: String::from_str(username) });
    r.push(FormField { name: String::from_str("PASSWORT"), value: String::from_str(password) });
    r.push(FormField { name: String::from_str("AUSWERTUNG_ID"), value: to_decimal(id as u64) });
    r
}

} // verus!
