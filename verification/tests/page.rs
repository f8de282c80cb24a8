use avh_portal::directory::ElectedUser;
use avh_portal::errors::{Feed, Field, NoneOptionError, Part, PortalError};
use avh_portal::loader::{Loader, Reply, Request};
use avh_portal::page::{
    holder_cell, make_link_list, render_html_with_errors, Build, Document, Gathered, HolderCell,
    Link, PageData,
};
use std::collections::HashMap;

const PRIMARY: &str = "{\"1\":{\"DATENSATZ\":{\"AMT\":\"Kassier\",\"E-MAIL\":\"a@x.de\",\"VORNAME-PRIVATPERSON\":\"Ann\",\"NACHNAME-PRIVATPERSON\":\"Bee\",\"BIERNAME\":\"AB\",\"NEUWAHL\":\"2025\",\"JAHR\":\"26\"}}}";
const CATALOG: &str = "{\"1\":{\"DATENSATZ\":{\"AMT\":\"Kassier\"}},\"2\":{\"DATENSATZ\":{\"AMT\":\"Schriftführer\"}}}";

fn user(job: &str, email: &str, first: &str, sur: &str, nick: &str, date: &str) -> ElectedUser {
    ElectedUser {
        job_title: job.to_string(),
        email: email.to_string(),
        first_name: first.to_string(),
        sur_name: sur.to_string(),
        nick_name: nick.to_string(),
        reelection_date: date.to_string(),
    }
}

fn directory() -> Vec<ElectedUser> {
    vec![
        user("Kassier", "a@x.de", "Ann", "Bee", "AB", "2025 26"),
        user("Schriftführer", "", "vakant", "", "", "N/A"),
    ]
}

/// Feeds by number, files by path, and a record of what was asked.
struct World {
    feeds: HashMap<u16, String>,
    files: HashMap<String, String>,
    asked: Vec<String>,
}

impl World {
    fn complete() -> World {
        let mut world =
            World { feeds: HashMap::new(), files: HashMap::new(), asked: Vec::new() };
        world.feeds.insert(170, PRIMARY.to_string());
        world.feeds.insert(27, CATALOG.to_string());
        world.files.insert("./data/mails.txt".to_string(), "a:b".to_string());
        world.files.insert("./data/aemtermails.txt".to_string(), "k:c".to_string());
        world.files.insert("./data/mailmanmails.txt".to_string(), "l:d".to_string());
        world
    }

    fn serve(&mut self, request: Request) -> Reply {
        match request {
            Request::Fetch { feed } => {
                self.asked.push(format!("fetch {}", feed));
                Reply::Fetched(match self.feeds.get(&feed) {
                    Some(payload) => Ok(payload.clone()),
                    None => Err(PortalError::Network(format!("feed {}", feed))),
                })
            }
            Request::Write { path, content } => {
                self.asked.push(format!("write {}", path));
                self.files.insert(path, content);
                Reply::Written(Ok(()))
            }
            Request::Read { path } => {
                self.asked.push(format!("read {}", path));
                Reply::ReadBack(match self.files.get(&path) {
                    Some(content) => Ok(content.clone()),
                    None => Err(PortalError::NotFound(path)),
                })
            }
        }
    }

    fn build(&mut self) -> Result<PageData, PortalError> {
        let mut build = Build::start();
        while let Some(request) = build.pending() {
            let reply = self.serve(request);
            build = build.step(reply);
        }
        build.finish().unwrap()
    }
}

#[test]
fn build_loads_five_texts_in_order() {
    let mut world = World::complete();
    let page = world.build().unwrap();
    assert_eq!(
        page,
        PageData {
            users: directory(),
            active_redirections: "a:b".to_string(),
            job_redirections: "k:c".to_string(),
            mailman_lists: "l:d".to_string(),
        }
    );
    assert_eq!(
        world.asked,
        vec![
            "fetch 170",
            "write ./tmp/aemter.json",
            "fetch 27",
            "write ./tmp/aemter27.json",
            "read ./data/mails.txt",
            "read ./data/aemtermails.txt",
            "read ./data/mailmanmails.txt",
        ]
    );
    assert_eq!(world.files["./tmp/aemter.json"], PRIMARY);
    assert_eq!(world.files["./tmp/aemter27.json"], CATALOG);
}

#[test]
fn build_uses_snapshots_while_the_service_is_down() {
    let mut world = World::complete();
    world.feeds.clear();
    world.files.insert("./tmp/aemter.json".to_string(), PRIMARY.to_string());
    world.files.insert("./tmp/aemter27.json".to_string(), CATALOG.to_string());
    let page = world.build().unwrap();
    assert_eq!(page.users, directory());
    assert_eq!(world.asked.iter().filter(|a| a.starts_with("write")).count(), 0);
    assert_eq!(world.asked.iter().filter(|a| a.starts_with("fetch")).count(), 2);
}

#[test]
fn build_ends_with_the_first_failure() {
    let mut world = World::complete();
    world.feeds.clear();
    assert_eq!(world.build(), Err(PortalError::NotFound("./tmp/aemter.json".to_string())));
    assert_eq!(world.asked, vec!["fetch 170", "read ./tmp/aemter.json"]);
}

#[test]
fn build_ends_when_a_feed_is_malformed() {
    let mut world = World::complete();
    world.feeds.insert(27, "{\"1\":{\"DATENSATZ\":{}}}".to_string());
    assert_eq!(
        world.build(),
        Err(PortalError::MalformedFeed(NoneOptionError {
            feed: Feed::Secondary,
            part: Part::Field(Field::Amt),
        }))
    );
    assert_eq!(world.asked.last().unwrap(), "write ./tmp/aemter27.json");
}

#[test]
fn build_ends_when_a_static_file_is_missing() {
    let mut world = World::complete();
    world.files.remove("./data/aemtermails.txt");
    assert_eq!(
        world.build(),
        Err(PortalError::NotFound("./data/aemtermails.txt".to_string()))
    );
    assert_eq!(world.asked.last().unwrap(), "read ./data/aemtermails.txt");
}

#[test]
fn build_that_is_done_stays_done() {
    let done = Build::Done(Err(PortalError::Io("x".to_string())));
    assert_eq!(done.pending(), None);
    assert_eq!(
        done.step(Reply::ReadBack(Ok("y".to_string()))),
        Build::Done(Err(PortalError::Io("x".to_string())))
    );
    assert_eq!(Build::start().finish(), None);
    assert_eq!(Build::start().pending(), Some(Request::Fetch { feed: 170 }));
}

fn reading(path: &str) -> Loader {
    Loader::Reading { path: path.to_string() }
}

#[test]
fn build_goes_on_to_the_next_text() {
    assert_eq!(
        Gathered::Nothing.go_on("p".to_string()),
        Build::Loading {
            gathered: Gathered::Primary { primary: "p".to_string() },
            loader: Loader::Fetching { path: "./tmp/aemter27.json".to_string(), feed: 27 },
        }
    );
    assert_eq!(
        Gathered::Directory { users: directory() }.go_on("a".to_string()),
        Build::Loading {
            gathered: Gathered::Active { users: directory(), active: "a".to_string() },
            loader: reading("./data/aemtermails.txt"),
        }
    );
    assert_eq!(
        Gathered::Active { users: directory(), active: "a".to_string() }.go_on("j".to_string()),
        Build::Loading {
            gathered: Gathered::Jobs {
                users: directory(),
                active: "a".to_string(),
                jobs: "j".to_string(),
            },
            loader: reading("./data/mailmanmails.txt"),
        }
    );
    assert_eq!(
        Gathered::Jobs { users: directory(), active: "a".to_string(), jobs: "j".to_string() }
            .go_on("m".to_string()),
        Build::Done(Ok(PageData {
            users: directory(),
            active_redirections: "a".to_string(),
            job_redirections: "j".to_string(),
            mailman_lists: "m".to_string(),
        }))
    );
}

#[test]
fn build_makes_the_directory_when_both_feeds_are_there() {
    assert_eq!(
        Gathered::Primary { primary: PRIMARY.to_string() }.go_on(CATALOG.to_string()),
        Build::Loading {
            gathered: Gathered::Directory { users: directory() },
            loader: reading("./data/mails.txt"),
        }
    );
    assert_eq!(
        Gathered::after_feeds(Ok(directory())),
        Build::Loading {
            gathered: Gathered::Directory { users: directory() },
            loader: reading("./data/mails.txt"),
        }
    );
    let lack = NoneOptionError { feed: Feed::Primary, part: Part::Document };
    assert_eq!(Gathered::after_feeds(Err(lack)), Build::Done(Err(PortalError::MalformedFeed(lack))));
}

#[test]
fn build_settles_when_its_load_has_ended() {
    assert_eq!(
        Build::settle(Gathered::Nothing, reading("x")),
        Build::Loading { gathered: Gathered::Nothing, loader: reading("x") }
    );
    assert_eq!(
        Build::settle(Gathered::Nothing, Loader::Done(Err(PortalError::Io("x".to_string())))),
        Build::Done(Err(PortalError::Io("x".to_string())))
    );
    assert_eq!(
        Build::settle(Gathered::Nothing, Loader::Done(Ok("p".to_string()))),
        Gathered::Nothing.go_on("p".to_string())
    );
}

#[test]
fn failure_becomes_a_line_of_the_page() {
    let shown = render_html_with_errors(Err(PortalError::NotFound("./tmp/aemter.json".to_string())));
    assert_eq!(
        shown,
        Document::Critical(
            "CRITICAL: Other error: file not found: ./tmp/aemter.json please help me deal with this!"
                .to_string()
        )
    );
}

#[test]
fn built_page_is_shown_as_it_is() {
    let page = || PageData {
        users: directory(),
        active_redirections: "a".to_string(),
        job_redirections: "b".to_string(),
        mailman_lists: "c".to_string(),
    };
    assert_eq!(render_html_with_errors(Ok(page())), Document::Page(page()));
}

#[test]
fn holder_cell_links_to_the_holder_or_says_vacant() {
    let users = directory();
    assert_eq!(
        holder_cell(&users[0]),
        HolderCell::Person { href: "mailto:a@x.de".to_string(), label: "Ann (AB) Bee".to_string() }
    );
    assert_eq!(holder_cell(&users[1]), HolderCell::Vacant);
    assert_eq!(
        holder_cell(&user("X", "", "Vakant", "", "", "")),
        HolderCell::Person { href: "mailto:".to_string(), label: "Vakant () ".to_string() }
    );
}

#[test]
fn link_list_pairs_titles_with_addresses() {
    let titles = ["Webseite", "Skihütte"];
    let urls = ["https://www.av-huette.de/", "https://r.example/?k=skihuette", "unused"];
    assert_eq!(
        make_link_list(&titles, &urls),
        vec![
            Link { title: "Webseite".to_string(), url: "https://www.av-huette.de/".to_string() },
            Link { title: "Skihütte".to_string(), url: "https://r.example/?k=skihuette".to_string() },
        ]
    );
    assert_eq!(make_link_list(&[], &[]), vec![]);
}
