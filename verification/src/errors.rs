//! What can go wrong while a page is built.

use vstd::prelude::*;

verus! {

/// One of the two directory feeds.
#[derive(Clone, Copy, Debug, PartialEq, Eq, Structural)]
pub enum Feed {
    /// The feed of office holders.
    Primary,
    /// The catalog of all offices.
    Secondary,
}

/// A member that a feed record is required to have.
#[derive(Clone, Copy, Debug, PartialEq, Eq, Structural)]
pub enum Field {
    Datensatz,
    Amt,
    Email,
    Vorname,
    Nachname,
    Biername,
    Neuwahl,
    Jahr,
}

/// The part of a feed that was assumed to be there.
#[derive(Clone, Copy, Debug, PartialEq, Eq, Structural)]
pub enum Part {
    /// The payload as a JSON document.
    Json,
    /// The document as an object.
    Document,
    /// An entry of the document as an object.
    Record,
    /// A member of a record: `DATENSATZ` as an object, any other as a string.
    Field(Field),
}

/// A feed lacks something that was assumed to be there, or holds it with the
/// wrong type.
#[derive(Clone, Copy, Debug, PartialEq, Eq, Structural)]
pub struct NoneOptionError {
    pub feed: Feed,
    pub part: Part,
}

/// Why a page, or a part of it, could not be built. The texts are details for
/// the reader of the page; the library hands them on unread.
#[derive(Debug, PartialEq, Eq)]
pub enum PortalError {
    /// Credentials or the service's address are not configured.
    Config(String),
    /// The remote call failed.
    Network(String),
    /// The remote call went through, but its body could not be read.
    RemoteResponse(String),
    /// A feed is not of the expected shape.
    MalformedFeed(NoneOptionError),
    /// A file could not be read or written.
    Io(String),
    /// A file does not exist.
    NotFound(String),
}

/// The mathematical value of a [`PortalError`].
pub enum Failure {
    Config(Seq<char>),
    Network(Seq<char>),
    RemoteResponse(Seq<char>),
    MalformedFeed(NoneOptionError),
    Io(Seq<char>),
    NotFound(Seq<char>),
}

impl View for PortalError {
    type V = Failure;

    open spec fn view(&self) -> Failure {
        match self {
            PortalError::Config(d) => Failure::Config(d@),
            PortalError::Network(d) => Failure::Network(d@),
            PortalError::RemoteResponse(d) => Failure::RemoteResponse(d@),
            PortalError::MalformedFeed(e) => Failure::MalformedFeed(*e),
            PortalError::Io(d) => Failure::Io(d@),
            PortalError::NotFound(d) => Failure::NotFound(d@),
        }
    }
}

impl Feed {
    pub open spec fn spec_name(self) -> Seq<char> {
        match self {
            Feed::Primary => "primary"@,
            Feed::Secondary => "secondary"@,
        }
    }

    /// The feed's name in messages.
    pub fn name(self) -> (r: &'static str)
        ensures
            r@ == self.spec_name(),
    {
        match self {
            Feed::Primary => "primary",
            Feed::Secondary => "secondary",
        }
    }
}

impl Field {
    pub open spec fn spec_key(self) -> Seq<char> {
        match self {
            Field::Datensatz => "DATENSATZ"@,
            Field::Amt => "AMT"@,
            Field::Email => "E-MAIL"@,
            Field::Vorname => "VORNAME-PRIVATPERSON"@,
            Field::Nachname => "NACHNAME-PRIVATPERSON"@,
            Field::Biername => "BIERNAME"@,
            Field::Neuwahl => "NEUWAHL"@,
            Field::Jahr => "JAHR"@,
        }
    }

    /// The member's name in a feed.
    pub fn key(self) -> (r: &'static str)
        ensures
            r@ == self.spec_key(),
    {
        match self {
            Field::Datensatz => "DATENSATZ",
            Field::Amt => "AMT",
            Field::Email => "E-MAIL",
            Field::Vorname => "VORNAME-PRIVATPERSON",
            Field::Nachname => "NACHNAME-PRIVATPERSON",
            Field::Biername => "BIERNAME",
            Field::Neuwahl => "NEUWAHL",
            Field::Jahr => "JAHR",
        }
    }
}

impl Part {
    pub open spec fn spec_name(self) -> Seq<char> {
        match self {
            Part::Json => "payload"@,
            Part::Document => "document"@,
            Part::Record => "record"@,
            Part::Field(field) => field.spec_key(),
        }
    }

    /// The part's name in messages.
    pub fn name(self) -> (r: &'static str)
        ensures
            r@ == self.spec_name(),
    {
        match self {
            Part::Json => "payload",
            Part::Document => "document",
            Part::Record => "record",
            Part::Field(field) => field.key(),
        }
    }
}

impl NoneOptionError {
    pub open spec fn spec_message(self) -> Seq<char> {
        "Option::None was assumed to be something"@
    }

    /// What happened, in general terms.
    pub fn message(&self) -> (r: String)
        ensures
            r@ == self.spec_message(),
    {
        String::from_str("Option::None was assumed to be something")
    }

    /// The feed and the part, then the message: `primary feed, AMT: ` and so on.
    pub open spec fn spec_describe(self) -> Seq<char> {
        self.feed.spec_name() + " feed, "@ + self.part.spec_name() + ": "@ + self.spec_message()
    }

    /// Where it happened and what.
    pub fn describe(&self) -> (r: String)
        ensures
            r@ == self.spec_describe(),
    {
        let mut r = String::from_str(self.feed.name());
        r.append(" feed, ");
        r.append(self.part.name());
        r.append(": ");
        r.append(self.message().as_str());
        r
    }
}

impl Failure {
    /// The kind of failure in words, then its detail.
    pub open spec fn describe(self) -> Seq<char> {
        match self {
            Failure::Config(d) => "configuration: "@ + d,
            Failure::Network(d) => "network: "@ + d,
            Failure::RemoteResponse(d) => "remote response: "@ + d,
            Failure::MalformedFeed(e) => "malformed feed: "@ + e.spec_describe(),
            Failure::Io(d) => "file: "@ + d,
            Failure::NotFound(d) => "file not found: "@ + d,
        }
    }
}

impl PortalError {
    /// The failure in one line.
    pub fn describe(&self) -> (r: String)
        ensures
            r@ == self@.describe(),
    {
        match self {
            PortalError::Config(d) => String::from_str("configuration: ").concat(d.as_str()),
            PortalError::Network(d) => String::from_str("network: ").concat(d.as_str()),
            PortalError::RemoteResponse(d) => String::from_str("remote response: ").concat(
                d.as_str(),
            ),
            PortalError::MalformedFeed(e) => String::from_str("malformed feed: ").concat(
                e.describe().as_str(),
            ),
            PortalError::Io(d) => String::from_str("file: ").concat(d.as_str()),
            PortalError::NotFound(d) => String::from_str("file not found: ").concat(d.as_str()),
        }
    }
}

} // verus!
