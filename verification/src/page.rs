//! Building a page: the five texts are loaded one after the other, the two
//! feeds are merged into the directory, and what comes out is either all
//! that the page shows or the one failure that stopped the build.

use crate::directory::{directory, get_elected_users, holders, vakant, ElectedUser, Holder};
use crate::errors::{Failure, NoneOptionError, PortalError};
use crate::json::json_document;
use crate::loader::{load, Answer, Ask, Loader, Reply, Request, Stage, TxtFiles};
use vstd::prelude::*;

verus! {

/// All that a page shows beside its fixed parts.
#[derive(Debug, PartialEq, Eq)]
pub struct PageData {
    pub users: Vec<ElectedUser>,
    pub active_redirections: String,
    pub job_redirections: String,
    pub mailman_lists: String,
}

/// The mathematical value of a [`PageData`].
pub struct PageContent {
    pub users: Seq<Holder>,
    pub active_redirections: Seq<char>,
    pub job_redirections: Seq<char>,
    pub mailman_lists: Seq<char>,
}

impl View for PageData {
    type V = PageContent;

    open spec fn view(&self) -> PageContent {
        PageContent {
            users: holders(self.users@),
            active_redirections: self.active_redirections@,
            job_redirections: self.job_redirections@,
            mailman_lists: self.mailman_lists@,
        }
    }
}

/// The value of a page or a failure.
pub open spec fn page_outcome(r: Result<PageData, PortalError>) -> Result<PageContent, Failure> {
    match r {
        Ok(page) => Ok(page@),
        Err(e) => Err(e@),
    }
}

/// What a build has gathered so far.
#[derive(Debug, PartialEq, Eq)]
pub enum Gathered {
    Nothing,
    Primary { primary: String },
    Directory { users: Vec<ElectedUser> },
    Active { users: Vec<ElectedUser>, active: String },
    Jobs { users: Vec<ElectedUser>, active: String, jobs: String },
}

/// A build in progress: what is there already and the load that is under
/// way, or how the build ended.
#[derive(Debug, PartialEq, Eq)]
pub enum Build {
    Loading { gathered: Gathered, loader: Loader },
    Done(Result<PageData, PortalError>),
}

/// The mathematical value of a [`Gathered`].
pub enum Parts {
    Nothing,
    Primary { primary: Seq<char> },
    Directory { users: Seq<Holder> },
    Active { users: Seq<Holder>, active: Seq<char> },
    Jobs { users: Seq<Holder>, active: Seq<char>, jobs: Seq<char> },
}

/// The mathematical value of a [`Build`].
pub enum Progress {
    Loading { gathered: Parts, loader: Stage },
    Done(Result<PageContent, Failure>),
}

impl View for Gathered {
    type V = Parts;

    open spec fn view(&self) -> Parts {
        match self {
            Gathered::Nothing => Parts::Nothing,
            Gathered::Primary { primary } => Parts::Primary { primary: primary@ },
            Gathered::Directory { users } => Parts::Directory { users: holders(users@) },
            Gathered::Active { users, active } => Parts::Active {
                users: holders(users@),
                active: active@,
            },
            Gathered::Jobs { users, active, jobs } => Parts::Jobs {
                users: holders(users@),
                active: active@,
                jobs: jobs@,
            },
        }
    }
}

impl View for Build {
    type V = Progress;

    open spec fn view(&self) -> Progress {
        match self {
            Build::Loading { gathered, loader } => Progress::Loading {
                gathered: gathered@,
                loader: loader@,
            },
            Build::Done(r) => Progress::Done(page_outcome(*r)),
        }
    }
}

/// The value of a directory or of what a feed lacks.
pub open spec fn directory_outcome(made: Result<Vec<ElectedUser>, NoneOptionError>) -> Result<
    Seq<Holder>,
    NoneOptionError,
> {
    match made {
        Ok(users) => Ok(holders(users@)),
        Err(e) => Err(e),
    }
}

impl Parts {
    /// The build once both feeds are there and `made` is what the directory
    /// came to: it goes on to the static texts, or ends where a feed was not
    /// as required.
    pub open spec fn after_feeds(made: Result<Seq<Holder>, NoneOptionError>) -> Progress {
        match made {
            Ok(users) => Progress::Loading {
                gathered: Parts::Directory { users },
                loader: Stage::start(TxtFiles::ActiveRedirections),
            },
            Err(e) => Progress::Done(Err(Failure::MalformedFeed(e))),
        }
    }

    /// The build goes on with `text`, which a load has brought: the next
    /// text is loaded, in the order primary feed, catalog, active
    /// redirections, job redirections, mailing lists. Once both feeds are
    /// there the directory is made of them.
    pub open spec fn go_on(self, text: Seq<char>) -> Progress {
        match self {
            Parts::Nothing => Progress::Loading {
                gathered: Parts::Primary { primary: text },
                loader: Stage::start(TxtFiles::SecondaryElectionJson),
            },
            Parts::Primary { primary } => Parts::after_feeds(
                directory(json_document(primary), json_document(text)),
            ),
            Parts::Directory { users } => Progress::Loading {
                gathered: Parts::Active { users, active: text },
                loader: Stage::start(TxtFiles::JobRedirections),
            },
            Parts::Active { users, active } => Progress::Loading {
                gathered: Parts::Jobs { users, active, jobs: text },
                loader: Stage::start(TxtFiles::MailmanLists),
            },
            Parts::Jobs { users, active, jobs } => Progress::Done(
                Ok(
                    PageContent {
                        users,
                        active_redirections: active,
                        job_redirections: jobs,
                        mailman_lists: text,
                    },
                ),
            ),
        }
    }
}

impl Progress {
    /// The build at its start: the primary feed is loaded first.
    pub open spec fn start() -> Progress {
        Progress::Loading {
            gathered: Parts::Nothing,
            loader: Stage::start(TxtFiles::ElectedUserJson),
        }
    }

    /// What the build waits for; nothing once it is done.
    pub open spec fn pending(self) -> Option<Ask> {
        match self {
            Progress::Loading { gathered, loader } => loader.pending(),
            Progress::Done(_) => None,
        }
    }

    /// The build with its load at `loader`: where the load has ended, the
    /// build goes on with its text or ends with its failure.
    pub open spec fn settle(gathered: Parts, loader: Stage) -> Progress {
        match loader {
            Stage::Done(Ok(text)) => gathered.go_on(text),
            Stage::Done(Err(e)) => Progress::Done(Err(e)),
            stage => Progress::Loading { gathered, loader: stage },
        }
    }

    /// The build after `answer`: the load under way takes the answer, and
    /// the build settles.
    pub open spec fn step(self, answer: Answer) -> Progress {
        match self {
            Progress::Loading { gathered, loader } => Progress::settle(
                gathered,
                loader.step(answer),
            ),
            Progress::Done(r) => Progress::Done(r),
        }
    }

    /// The load under way has not ended: when a load ends, the build goes on
    /// at once.
    pub open spec fn ready(self) -> bool {
        match self {
            Progress::Loading { gathered, loader } => !(loader is Done),
            Progress::Done(_) => true,
        }
    }
}

/// A build starts ready and stays so, whatever it is answered.
pub proof fn lemma_build_stays_ready(progress: Progress, answer: Answer)
    requires
        progress.ready(),
    ensures
        Progress::start().ready(),
        progress.step(answer).ready(),
{
}

/// A ready build with nothing pending is done, and a build that is done has
/// nothing pending.
pub proof fn lemma_build_waits_or_is_done(progress: Progress)
    requires
        progress.ready(),
    ensures
        progress.pending() is None <==> progress is Done,
{
}

impl Gathered {
    /// The build once both feeds are there and `made` is what the directory
    /// came to.
    pub fn after_feeds(made: Result<Vec<ElectedUser>, NoneOptionError>) -> (next: Build)
        ensures
            next@ == Parts::after_feeds(directory_outcome(made)),
    {
        match made {
            Ok(users) => Build::Loading {
                gathered: Gathered::Directory { users },
                loader: load(TxtFiles::ActiveRedirections),
            },
            Err(e) => Build::Done(Err(PortalError::MalformedFeed(e))),
        }
    }

    /// The build goes on with `text`, which a load has brought.
    pub fn go_on(self, text: String) -> (next: Build)
        ensures
            next@ == self@.go_on(text@),
    {
        match self {
            Gathered::Nothing => Build::Loading {
                gathered: Gathered::Primary { primary: text },
                loader: load(TxtFiles::SecondaryElectionJson),
            },
            Gathered::Primary { primary } => Gathered::after_feeds(
                get_elected_users(primary.as_str(), text.as_str()),
            ),
            Gathered::Directory { users } => Build::Loading {
                gathered: Gathered::Active { users, active: text },
                loader: load(TxtFiles::JobRedirections),
            },
            Gathered::Active { users, active } => Build::Loading {
                gathered: Gathered::Jobs { users, active, jobs: text },
                loader: load(TxtFiles::MailmanLists),
            },
            Gathered::Jobs { users, active, jobs } => Build::Done(
                Ok(
                    PageData {
                        users,
                        active_redirections: active,
                        job_redirections: jobs,
                        mailman_lists: text,
                    },
                ),
            ),
        }
    }
}

impl Build {
    /// A build at its start.
    pub fn start() -> (r: Build)
        ensures
            r@ == Progress::start(),
    {
        Build::Loading { gathered: Gathered::Nothing, loader: load(TxtFiles::ElectedUserJson) }
    }

    /// What the caller has to do next; nothing once the build is done.
    pub fn pending(&self) -> (r: Option<Request>)
        ensures
            match r {
                Some(request) => self@.pending() == Some(request@),
                None => self@.pending() is None,
            },
    {
        match self {
            Build::Loading { gathered, loader } => loader.pending(),
            Build::Done(_) => None,
        }
    }

    /// The build with its load at `loader`.
    pub fn settle(gathered: Gathered, loader: Loader) -> (next: Build)
        ensures
            next@ == Progress::settle(gathered@, loader@),
    {
        match loader {
            Loader::Done(Ok(text)) => gathered.go_on(text),
            Loader::Done(Err(e)) => Build::Done(Err(e)),
            stage => Build::Loading { gathered, loader: stage },
        }
    }

    /// The build after `reply`.
    pub fn step(self, reply: Reply) -> (next: Build)
        ensures
            next@ == self@.step(reply@),
    {
        match self {
            Build::Loading { gathered, loader } => Build::settle(gathered, loader.step(reply)),
            Build::Done(r) => Build::Done(r),
        }
    }

    /// The page, or why there is none, once the build is done.
    pub fn finish(self) -> (r: Option<Result<PageData, PortalError>>)
        ensures
            match r {
                Some(outcome) => self@ == Progress::Done(page_outcome(outcome)),
                None => !(self@ is Done),
            },
    {
        match self {
            Build::Done(outcome) => Some(outcome),
            _ => None,
        }
    }
}

/// What a page shows in place of its variable part: the data, or one line
/// that says that the build failed, and why.
#[derive(Debug, PartialEq, Eq)]
pub enum Document {
    Page(PageData),
    Critical(String),
}

/// The mathematical value of a [`Document`].
pub enum Shown {
    Page(PageContent),
    Critical(Seq<char>),
}

impl View for Document {
    type V = Shown;

    open spec fn view(&self) -> Shown {
        match self {
            Document::Page(page) => Shown::Page(page@),
            Document::Critical(line) => Shown::Critical(line@),
        }
    }
}

/// The line that stands for a failed build.
pub open spec fn critical_line(failure: Failure) -> Seq<char> {
    "CRITICAL: Other error: "@ + failure.describe() + " please help me deal with this!"@
}

/// What is shown for a build that ended with `built`. A failure does not go
/// further than this: it becomes a line of the page.
pub fn render_html_with_errors(built: Result<PageData, PortalError>) -> (r: Document)
    ensures
        r@ == match built {
            Ok(page) => Shown::Page(page@),
            Err(e) => Shown::Critical(critical_line(e@)),
        },
{
    match built {
        Ok(page) => Document::Page(page),
        Err(e) => {
            let mut line = String::from_str("CRITICAL: Other error: ");
            line.append(e.describe().as_str());
            line.append(" please help me deal with this!");
            Document::Critical(line)
        },
    }
}

/// What the directory shows in the column of the holder.
#[derive(Debug, PartialEq, Eq)]
pub enum HolderCell {
    /// The office is vacant.
    Vacant,
    /// A link to write to the holder, and the holder's name on it.
    Person { href: String, label: String },
}

/// The mathematical value of a [`HolderCell`].
pub enum Cell {
    Vacant,
    Person { href: Seq<char>, label: Seq<char> },
}

impl View for HolderCell {
    type V = Cell;

    open spec fn view(&self) -> Cell {
        match self {
            HolderCell::Vacant => Cell::Vacant,
            HolderCell::Person { href, label } => Cell::Person { href: href@, label: label@ },
        }
    }
}

/// The cell of a record: vacant where the given name says so, else a
/// `mailto:` link with given name, nickname in brackets, and surname.
pub open spec fn cell_of(holder: Holder) -> Cell {
    if holder.first_name == vakant() {
        Cell::Vacant
    } else {
        Cell::Person {
            href: "mailto:"@ + holder.email,
            label: holder.first_name + " ("@ + holder.nick_name + ") "@ + holder.sur_name,
        }
    }
}

/// What the directory shows for `user` in the column of the holder.
pub fn holder_cell(user: &ElectedUser) -> (r: HolderCell)
    ensures
        r@ == cell_of(user@),
{
    if user.first_name == String::from_str("vakant") {
        HolderCell::Vacant
    } else {
        let href = String::from_str("mailto:").concat(user.email.as_str());
        let mut label = user.first_name.clone();
        label.append(" (");
        label.append(user.nick_name.as_str());
        label.append(") ");
        label.append(user.sur_name.as_str());
        HolderCell::Person { href, label }
    }
}

/// A link of one of the page's lists.
#[derive(Debug, PartialEq, Eq)]
pub struct Link {
    pub title: String,
    pub url: String,
}

/// The links of a list: the titles in their order, each with the address at
/// the same place.
pub fn make_link_list(titles: &[&str], urls: &[&str]) -> (r: Vec<Link>)
    requires
        titles@.len() <= urls@.len(),
    ensures
        r@.len() == titles@.len(),
        forall|i: int|
            0 <= i < titles@.len() ==> (#[trigger] r@[i]).title@ == titles@[i]@ && r@[i].url@
                == urls@[i]@,
{
    let mut r: Vec<Link> = Vec::new();
    let mut i: usize = 0;
    while i < titles.len()
        invariant
            i <= titles@.len() <= urls@.len(),
            r@.len() == i,
            forall|k: int|
                0 <= k < i ==> (#[trigger] r@[k]).title@ == titles@[k]@ && r@[k].url@ == urls@[k]@,
        decreases titles@.len() - i,
    {
        r.push(Link { title: String::from_str(titles[i]), url: String::from_str(urls[i]) });
        i = i + 1;
    }
    r
}

} // verus!
