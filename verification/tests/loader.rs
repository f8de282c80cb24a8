use avh_portal::errors::PortalError;
use avh_portal::loader::{
    load, query_form, read_query_with_fallback_file, FormField, Loader, Reply, Request, TxtFiles,
};
use std::collections::HashMap;

/// A remote service and a disk that count what is asked of them.
struct World {
    remote: Result<String, PortalError>,
    files: HashMap<String, String>,
    write_fails: bool,
    fetches: u32,
    writes: u32,
    reads: u32,
}

impl World {
    fn new(remote: Result<&str, PortalError>) -> World {
        World {
            remote: remote.map(|payload| payload.to_string()),
            files: HashMap::new(),
            write_fails: false,
            fetches: 0,
            writes: 0,
            reads: 0,
        }
    }

    fn with_file(mut self, path: &str, content: &str) -> World {
        self.files.insert(path.to_string(), content.to_string());
        self
    }

    fn serve(&mut self, request: Request) -> Reply {
        match request {
            Request::Fetch { .. } => {
                self.fetches += 1;
                Reply::Fetched(match &self.remote {
                    Ok(payload) => Ok(payload.clone()),
                    Err(_) => Err(PortalError::Network("down".to_string())),
                })
            }
            Request::Write { path, content } => {
                self.writes += 1;
                if self.write_fails {
                    Reply::Written(Err(PortalError::Io("disk full".to_string())))
                } else {
                    self.files.insert(path, content);
                    Reply::Written(Ok(()))
                }
            }
            Request::Read { path } => {
                self.reads += 1;
                Reply::ReadBack(match self.files.get(&path) {
                    Some(content) => Ok(content.clone()),
                    None => Err(PortalError::NotFound(path)),
                })
            }
        }
    }

    fn run(&mut self, mut loader: Loader) -> Result<String, PortalError> {
        while let Some(request) = loader.pending() {
            let reply = self.serve(request);
            loader = loader.step(reply);
        }
        loader.finish().unwrap()
    }
}

fn down() -> Result<&'static str, PortalError> {
    Err(PortalError::Network("down".to_string()))
}

#[test]
fn load_starts_feeds_with_a_fetch_and_files_with_a_read() {
    assert_eq!(
        load(TxtFiles::ElectedUserJson),
        Loader::Fetching { path: "./tmp/aemter.json".to_string(), feed: 170 }
    );
    assert_eq!(
        load(TxtFiles::SecondaryElectionJson),
        Loader::Fetching { path: "./tmp/aemter27.json".to_string(), feed: 27 }
    );
    assert_eq!(
        load(TxtFiles::JobRedirections),
        Loader::Reading { path: "./data/aemtermails.txt".to_string() }
    );
    assert_eq!(
        load(TxtFiles::MailmanLists),
        Loader::Reading { path: "./data/mailmanmails.txt".to_string() }
    );
    assert_eq!(
        load(TxtFiles::ActiveRedirections),
        Loader::Reading { path: "./data/mails.txt".to_string() }
    );
}

#[test]
fn paths_and_feed_numbers() {
    assert_eq!(TxtFiles::ElectedUserJson.path(), "./tmp/aemter.json");
    assert_eq!(TxtFiles::ElectedUserJson.feed(), Some(170));
    assert_eq!(TxtFiles::SecondaryElectionJson.feed(), Some(27));
    assert_eq!(TxtFiles::MailmanLists.feed(), None);
    assert_eq!(TxtFiles::ActiveRedirections.feed(), None);
    assert_eq!(TxtFiles::JobRedirections.feed(), None);
}

#[test]
fn fallback_load_asks_the_service_first() {
    let loader = read_query_with_fallback_file("snap.json", 5);
    assert_eq!(loader, Loader::Fetching { path: "snap.json".to_string(), feed: 5 });
    assert_eq!(loader.pending(), Some(Request::Fetch { feed: 5 }));
    assert_eq!(loader.finish(), None);
}

#[test]
fn failed_fetch_returns_the_snapshot_and_writes_nothing() {
    let mut world = World::new(down()).with_file("snap.json", "{\"old\":1}");
    let result = world.run(read_query_with_fallback_file("snap.json", 170));
    assert_eq!(result, Ok("{\"old\":1}".to_string()));
    assert_eq!(world.writes, 0);
    assert_eq!(world.fetches, 1);
    assert_eq!(world.reads, 1);
    assert_eq!(world.files["snap.json"], "{\"old\":1}");
}

#[test]
fn fetched_json_becomes_the_snapshot() {
    let mut world = World::new(Ok("{\"new\":2}")).with_file("snap.json", "{\"old\":1}");
    let result = world.run(read_query_with_fallback_file("snap.json", 170));
    assert_eq!(result, Ok("{\"new\":2}".to_string()));
    assert_eq!(world.files["snap.json"], "{\"new\":2}");
    assert_eq!((world.fetches, world.writes, world.reads), (1, 1, 0));
}

#[test]
fn fetched_json_is_returned_though_the_write_fails() {
    let mut world = World::new(Ok("[1]")).with_file("snap.json", "old");
    world.write_fails = true;
    let result = world.run(read_query_with_fallback_file("snap.json", 27));
    assert_eq!(result, Ok("[1]".to_string()));
    assert_eq!(world.files["snap.json"], "old");
    assert_eq!((world.fetches, world.writes, world.reads), (1, 1, 0));
}

#[test]
fn fetched_text_that_is_no_json_falls_back_to_the_snapshot() {
    let mut world = World::new(Ok("<html>login</html>")).with_file("snap.json", "{}");
    let result = world.run(read_query_with_fallback_file("snap.json", 27));
    assert_eq!(result, Ok("{}".to_string()));
    assert_eq!((world.fetches, world.writes, world.reads), (1, 0, 1));
    assert_eq!(world.files["snap.json"], "{}");
}

#[test]
fn missing_snapshot_fails_the_load() {
    let mut world = World::new(down());
    let result = world.run(read_query_with_fallback_file("snap.json", 27));
    assert_eq!(result, Err(PortalError::NotFound("snap.json".to_string())));
    assert_eq!((world.fetches, world.writes, world.reads), (1, 0, 1));
}

#[test]
fn static_file_is_read_and_never_fetched() {
    let mut world = World::new(down()).with_file("./data/mails.txt", "a:b");
    assert_eq!(world.run(load(TxtFiles::ActiveRedirections)), Ok("a:b".to_string()));
    assert_eq!((world.fetches, world.writes, world.reads), (0, 0, 1));
    assert_eq!(
        world.run(load(TxtFiles::MailmanLists)),
        Err(PortalError::NotFound("./data/mailmanmails.txt".to_string()))
    );
}

#[test]
fn advance_follows_the_flag_it_is_given() {
    let fetched = || Reply::Fetched(Ok("whatever".to_string()));
    let start = || read_query_with_fallback_file("p", 1);
    assert_eq!(
        start().advance(fetched(), true),
        Loader::Writing { path: "p".to_string(), payload: "whatever".to_string() }
    );
    assert_eq!(start().advance(fetched(), false), Loader::Reading { path: "p".to_string() });
    let failed = Reply::Fetched(Err(PortalError::Config("no user".to_string())));
    assert_eq!(start().advance(failed, true), Loader::Reading { path: "p".to_string() });
}

#[test]
fn each_stage_asks_for_its_own_request() {
    let writing = Loader::Writing { path: "p".to_string(), payload: "{}".to_string() };
    assert_eq!(
        writing.pending(),
        Some(Request::Write { path: "p".to_string(), content: "{}".to_string() })
    );
    let reading = Loader::Reading { path: "p".to_string() };
    assert_eq!(reading.pending(), Some(Request::Read { path: "p".to_string() }));
    let done = Loader::Done(Ok("x".to_string()));
    assert_eq!(done.pending(), None);
    assert_eq!(done.finish(), Some(Ok("x".to_string())));
}

#[test]
fn write_outcome_does_not_change_the_result() {
    let writing = || Loader::Writing { path: "p".to_string(), payload: "{}".to_string() };
    assert_eq!(writing().step(Reply::Written(Ok(()))), Loader::Done(Ok("{}".to_string())));
    assert_eq!(
        writing().step(Reply::Written(Err(PortalError::Io("full".to_string())))),
        Loader::Done(Ok("{}".to_string()))
    );
}

#[test]
fn read_outcome_is_the_result() {
    let reading = || Loader::Reading { path: "p".to_string() };
    assert_eq!(
        reading().step(Reply::ReadBack(Ok("stale".to_string()))),
        Loader::Done(Ok("stale".to_string()))
    );
    assert_eq!(
        reading().step(Reply::ReadBack(Err(PortalError::Io("denied".to_string())))),
        Loader::Done(Err(PortalError::Io("denied".to_string())))
    );
}

#[test]
fn reply_to_something_else_is_ignored() {
    let fetching = read_query_with_fallback_file("p", 1);
    assert_eq!(
        fetching.step(Reply::ReadBack(Ok("{}".to_string()))),
        read_query_with_fallback_file("p", 1)
    );
    let writing = Loader::Writing { path: "p".to_string(), payload: "{}".to_string() };
    assert_eq!(
        writing.step(Reply::Fetched(Ok("[]".to_string()))),
        Loader::Writing { path: "p".to_string(), payload: "{}".to_string() }
    );
    let reading = Loader::Reading { path: "p".to_string() };
    assert_eq!(reading.step(Reply::Written(Ok(()))), Loader::Reading { path: "p".to_string() });
    let done = Loader::Done(Err(PortalError::NotFound("p".to_string())));
    assert_eq!(
        done.step(Reply::ReadBack(Ok("x".to_string()))),
        Loader::Done(Err(PortalError::NotFound("p".to_string())))
    );
}

#[test]
fn query_form_names_user_password_and_feed() {
    assert_eq!(
        query_form("me", "secret", 170),
        vec![
            FormField { name: "USERNAME".to_string(), value: "me".to_string() },
            FormField { name: "PASSWORT".to_string(), value: "secret".to_string() },
            FormField { name: "AUSWERTUNG_ID".to_string(), value: "170".to_string() },
        ]
    );
    assert_eq!(query_form("", "", 0)[2].value, "0");
    assert_eq!(query_form("", "", u16::MAX)[2].value, "65535");
}
