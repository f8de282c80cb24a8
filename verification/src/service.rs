//! A model of what a load meets outside: the remote service and the files.
//! It says what a load does when each of its requests is carried out
//! faithfully, and so what the fall-back to the snapshot comes to.

use crate::errors::Failure;
use crate::json::json_document;
use crate::loader::{Answer, Ask, Stage};
use vstd::prelude::*;

verus! {

/// The remote service and the files, with counts of what was asked of them.
pub struct World {
    /// What a fetch of each feed gives.
    pub remote: spec_fn(u16) -> Result<Seq<char>, Failure>,
    /// The files that exist, by path, with what they hold.
    pub files: Map<Seq<char>, Seq<char>>,
    /// The failure of every write, where writing does not work.
    pub write_failure: Option<Failure>,
    /// How often a feed was fetched.
    pub fetches: nat,
    /// How often a file was written, or tried to be.
    pub writes: nat,
}

impl World {
    /// The world after `ask` was carried out, and the answer it gave. A
    /// write that fails leaves the file as it was; a file that does not exist
    /// reads as not found.
    pub open spec fn serve(self, ask: Ask) -> (World, Answer) {
        match ask {
            Ask::Fetch { feed } => (
                World { fetches: self.fetches + 1, ..self },
                Answer::Fetched((self.remote)(feed)),
            ),
            Ask::Write { path, content } => match self.write_failure {
                Some(failure) => (
                    World { writes: self.writes + 1, ..self },
                    Answer::Written(Err(failure)),
                ),
                None => (
                    World { files: self.files.insert(path, content), writes: self.writes + 1, ..self },
                    Answer::Written(Ok(())),
                ),
            },
            Ask::Read { path } => (
                self,
                Answer::ReadBack(
                    if self.files.dom().contains(path) {
                        Ok(self.files[path])
                    } else {
                        Err(Failure::NotFound(path))
                    },
                ),
            ),
        }
    }
}

/// How many answers a load still needs, at most.
pub open spec fn steps_left(stage: Stage) -> nat {
    match stage {
        Stage::Fetching { .. } => 2,
        Stage::Writing { .. } => 1,
        Stage::Reading { .. } => 1,
        Stage::Done(_) => 0,
    }
}

/// The load carried through in `world`: each request is served and answered
/// until nothing is pending.
pub open spec fn run(stage: Stage, world: World) -> (Stage, World)
    decreases steps_left(stage),
{
    match stage.pending() {
        None => (stage, world),
        Some(ask) => {
            let (next_world, answer) = world.serve(ask);
            if steps_left(stage.step(answer)) < steps_left(stage) {
                run(stage.step(answer), next_world)
            } else {
                (stage, world)
            }
        },
    }
}

/// Each answer of the world brings a load nearer to its end, so a load that
/// is carried through ends done.
pub proof fn lemma_run_ends(stage: Stage, world: World)
    ensures
        stage.pending() matches Some(ask) ==> steps_left(stage.step(world.serve(ask).1))
            < steps_left(stage),
        run(stage, world).0 is Done,
    decreases steps_left(stage),
{
    match stage.pending() {
        None => {},
        Some(ask) => {
            let (next_world, answer) = world.serve(ask);
            lemma_run_ends(stage.step(answer), next_world);
        },
    }
}

/// A fetch that fails, or brings something that is no JSON, makes the load
/// return the snapshot where there is one. The feed was fetched once, and
/// nothing was written.
pub proof fn lemma_fallback_returns_snapshot(world: World, path: Seq<char>, feed: u16)
    requires
        !Answer::Fetched((world.remote)(feed)).brings_json(),
        world.files.dom().contains(path),
    ensures
        run(Stage::Fetching { path, feed }, world).0 == Stage::Done(Ok(world.files[path])),
        run(Stage::Fetching { path, feed }, world).1 == (World {
            fetches: world.fetches + 1,
            ..world
        }),
{
    let start = Stage::Fetching { path, feed };
    let (w1, a1) = world.serve(Ask::Fetch { feed });
    let s1 = start.step(a1);
    assert(s1 == Stage::Reading { path });
    let (w2, a2) = w1.serve(Ask::Read { path });
    let s2 = s1.step(a2);
    assert(s2 == Stage::Done(Ok(world.files[path])));
    assert(run(s2, w2) == (s2, w2));
    assert(run(s1, w1) == (s2, w2));
}

/// Without a snapshot the same load fails: the file is not found.
pub proof fn lemma_fallback_without_snapshot(world: World, path: Seq<char>, feed: u16)
    requires
        !Answer::Fetched((world.remote)(feed)).brings_json(),
        !world.files.dom().contains(path),
    ensures
        run(Stage::Fetching { path, feed }, world).0 == Stage::Done(Err(Failure::NotFound(path))),
        run(Stage::Fetching { path, feed }, world).1 == (World {
            fetches: world.fetches + 1,
            ..world
        }),
{
    let start = Stage::Fetching { path, feed };
    let (w1, a1) = world.serve(Ask::Fetch { feed });
    let s1 = start.step(a1);
    assert(s1 == Stage::Reading { path });
    let (w2, a2) = w1.serve(Ask::Read { path });
    let s2 = s1.step(a2);
    assert(run(s2, w2) == (s2, w2));
    assert(run(s1, w1) == (s2, w2));
}

/// A fetch that brings JSON makes the load return the payload, after one
/// fetch and one write. Where writing works, the snapshot then holds the
/// payload; where it does not, the files are as they were, and the payload is
/// returned all the same.
pub proof fn lemma_fetched_json_is_saved(
    world: World,
    path: Seq<char>,
    feed: u16,
    payload: Seq<char>,
)
    requires
        (world.remote)(feed) == Ok::<Seq<char>, Failure>(payload),
        json_document(payload) is Some,
    ensures
        run(Stage::Fetching { path, feed }, world).0 == Stage::Done(Ok(payload)),
        run(Stage::Fetching { path, feed }, world).1 == (World {
            files: if world.write_failure is None {
                world.files.insert(path, payload)
            } else {
                world.files
            },
            fetches: world.fetches + 1,
            writes: world.writes + 1,
            ..world
        }),
        world.write_failure is None ==> run(
            Stage::Fetching { path, feed },
            world,
        ).1.files[path] == payload,
{
    let start = Stage::Fetching { path, feed };
    let (w1, a1) = world.serve(Ask::Fetch { feed });
    let s1 = start.step(a1);
    assert(a1.brings_json());
    assert(s1 == Stage::Writing { path, payload });
    let (w2, a2) = w1.serve(Ask::Write { path, content: payload });
    let s2 = s1.step(a2);
    assert(s2 == Stage::Done(Ok(payload)));
    assert(run(s2, w2) == (s2, w2));
    assert(run(s1, w1) == (s2, w2));
}

} // verus!
