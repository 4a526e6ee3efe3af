//! The decisions of one command, from its first word to its last action.
//!
//! A command is run as a conversation: `begin` and `advance` decide what is
//! to be done next, the caller does it and reports what came of it. Nothing
//! here waits, reads or sends.
use vstd::prelude::*;
use vstd::string::*;
use crate::access::{access_of, access_under, Access, Config};
use crate::aggregate::{
    aggregate,
    aggregate_of,
    assets_known,
    texts,
    totals_fit,
    AggregateError,
    WorldObject,
};
use crate::analysis::{lists_in_key_order, AnalysisResult};
use crate::classify::{standard_budgets, ChunkStats};
use crate::costs::CostTable;
use crate::grid::{chunk_key, pos_to_chunk};
use crate::message::{Failure, Message};
use crate::marker::{is_marker_save, mark_chunks, marker_owner_id, marker_owner_uuid, MarkerSave};
use crate::store::AnalysisStore;

verus! {

/// How long a snapshot is given to reach the disk, in milliseconds.
pub const SETTLE_MILLIS: u64 = 2500;

/// Name of the snapshot that an analysis is made of.
pub open spec fn save_name() -> Seq<char> {
    "_omegga_chunks"@
}

/// Name of the snapshot that an analysis is made of.
pub fn snapshot_name() -> (name: String)
    ensures
        name@ == save_name(),
{
    String::from_str("_omegga_chunks")
}

/// What the user asked for: the first word after the command's name.
#[derive(Debug)]
pub enum Command {
    /// `analyze`: snapshot the world and sum it up.
    Analyze,
    /// `in`: say which chunk the user stands in.
    In,
    /// `count`: say what the user's chunk holds.
    Count,
    /// `mark`: mark the user's chunk.
    Mark,
    /// `markall`: mark every chunk that holds an object.
    MarkAll,
    /// `clear`: remove all markers.
    Clear,
    /// Any other word, kept as written.
    Unknown(String),
}

/// What a position was asked for.
#[derive(Clone, Copy, Debug, PartialEq, Eq, Structural)]
pub enum Query {
    In,
    Count,
    Mark,
}

/// What a marker save was built for.
#[derive(Clone, Copy, Debug, PartialEq, Eq, Structural)]
pub enum Marking {
    One,
    All,
}

/// Where a running command stands: what it waits for.
#[derive(Clone, Copy, Debug, PartialEq, Eq, Structural)]
pub enum Stage {
    /// The snapshot was requested.
    Saving,
    /// The snapshot is given time to reach the disk.
    Settling,
    /// The snapshot's path was asked for.
    Locating,
    /// The snapshot is being read.
    Reading,
    /// The new analysis is being put into the store.
    Storing,
    /// The user's position was asked for.
    Positioning(Query),
    /// A marker save is being loaded into the world.
    Loading(Marking),
    /// The markers are being removed.
    Clearing,
    /// The command has ended.
    Done,
}

/// What the caller reports back after doing what it was told.
#[derive(Debug)]
pub enum Event {
    /// The snapshot was requested; `true` where the request succeeded.
    SnapshotSaved(bool),
    /// The settling time has passed.
    DelayElapsed,
    /// The snapshot's path, or `None` where there is no such snapshot.
    SnapshotLocated(Option<String>),
    /// The snapshot's objects and its asset table.
    SnapshotRead(Vec<WorldObject>, Vec<String>),
    /// The snapshot could not be read.
    SnapshotUnreadable,
    /// The analysis is in the store.
    Stored,
    /// The user stands at this position.
    PositionKnown((i32, i32, i32)),
    /// The user is not in the world.
    PositionUnknown,
    /// The position could not be asked for.
    PositionFailed,
    /// The marker save was sent; `true` where it was loaded.
    Loaded(bool),
    /// The removal of the markers was requested.
    Cleared,
}

/// What the caller is to do next.
#[derive(Debug)]
pub enum Action {
    /// Write the world to the snapshot of this name.
    SaveSnapshot(String),
    /// Let this many milliseconds pass.
    Wait(u64),
    /// Ask for the path of the snapshot of this name.
    FindSnapshot(String),
    /// Read the snapshot at this path.
    ReadSnapshot(String),
    /// Put this analysis into the store.
    Store(AnalysisResult),
    /// Ask where the user stands.
    AskPosition,
    /// Load this save into the world: quietly or not, at this offset.
    Load(MarkerSave, bool, (i32, i32, i32)),
    /// Remove what this owner owns, quietly or not.
    ClearOwner(String, bool),
    /// Tell the user, and end.
    Reply(Message),
    /// Report the failure, and end.
    Fail(Failure),
    /// End without a word.
    Finish,
}

/// The command that a word stands for. Words are case-sensitive.
pub open spec fn command_of(word: Seq<char>, command: Command) -> bool {
    if word == "analyze"@ {
        command is Analyze
    } else if word == "in"@ {
        command is In
    } else if word == "count"@ {
        command is Count
    } else if word == "mark"@ {
        command is Mark
    } else if word == "markall"@ {
        command is MarkAll
    } else if word == "clear"@ {
        command is Clear
    } else {
        command matches Command::Unknown(kept) && kept@ == word
    }
}

impl Command {
    /// Reads a subcommand.
    pub fn parse(word: &String) -> (command: Command)
        ensures
            command_of(word@, command),
    {
        if *word == String::from_str("analyze") {
            Command::Analyze
        } else if *word == String::from_str("in") {
            Command::In
        } else if *word == String::from_str("count") {
            Command::Count
        } else if *word == String::from_str("mark") {
            Command::Mark
        } else if *word == String::from_str("markall") {
            Command::MarkAll
        } else if *word == String::from_str("clear") {
            Command::Clear
        } else {
            Command::Unknown(word.clone())
        }
    }
}

/// Whether `action` is the reply `message`, with the command ended.
pub open spec fn ends_with(stage: Stage, action: Action, message: Message) -> bool {
    stage == Stage::Done && action == Action::Reply(message)
}

/// Whether `action` reports `failure`, with the command ended.
pub open spec fn fails_with(stage: Stage, action: Action, failure: Failure) -> bool {
    stage == Stage::Done && action == Action::Fail(failure)
}

/// Whether `action` loads the markers of `chunks`, quietly and at the
/// origin.
pub open spec fn loads_markers(
    action: Action,
    chunks: Seq<((i32, i32, i32), Option<ChunkStats>)>,
) -> bool {
    action matches Action::Load(save, quiet, offset) && quiet && offset == (0i32, 0i32, 0i32)
        && is_marker_save(save, chunks, standard_budgets())
}

/// The first step of a command. Without a list of users nothing happens;
/// a user who is not on it is told so, whatever the command. `count`,
/// `mark` and `markall` need an analysis and say so where there is none.
pub open spec fn begins(
    access: Access,
    command: Command,
    analysis: Option<Map<(i32, i32, i32), ChunkStats>>,
    stage: Stage,
    action: Action,
) -> bool {
    match access {
        Access::Unconfigured => stage == Stage::Done && action is Finish,
        Access::Denied => ends_with(stage, action, Message::NotAuthorized),
        Access::Granted => match command {
            Command::Analyze => {
                &&& stage == Stage::Saving
                &&& action matches Action::SaveSnapshot(name) && name@ == save_name()
            },
            Command::In => stage == Stage::Positioning(Query::In) && action is AskPosition,
            Command::Count => match analysis {
                None => ends_with(stage, action, Message::AnalyzeFirst),
                Some(_) => stage == Stage::Positioning(Query::Count) && action is AskPosition,
            },
            Command::Mark => match analysis {
                None => ends_with(stage, action, Message::AnalyzeFirst),
                Some(_) => stage == Stage::Positioning(Query::Mark) && action is AskPosition,
            },
            Command::MarkAll => match analysis {
                None => ends_with(stage, action, Message::AnalyzeFirst),
                Some(chunks) => {
                    &&& stage == Stage::Loading(Marking::All)
                    &&& exists|listing: Seq<((i32, i32, i32), Option<ChunkStats>)>|
                        #![auto]
                        lists_in_key_order(listing, chunks) && loads_markers(action, listing)
                },
            },
            Command::Clear => {
                &&& stage == Stage::Clearing
                &&& action matches Action::ClearOwner(owner, quiet) && owner@ == marker_owner_id()
                    && quiet
            },
            Command::Unknown(word) => {
                &&& stage == Stage::Done
                &&& action matches Action::Reply(Message::UnknownSubcommand(kept)) && kept@
                    == word@
            },
        },
    }
}

/// Decides the first step of a command.
pub fn begin(access: Access, command: Command, store: &AnalysisStore) -> (step: (Stage, Action))
    ensures
        begins(access, command, store@, step.0, step.1),
{
    match access {
        Access::Unconfigured => (Stage::Done, Action::Finish),
        Access::Denied => (Stage::Done, Action::Reply(Message::NotAuthorized)),
        Access::Granted => match command {
            Command::Analyze => (Stage::Saving, Action::SaveSnapshot(snapshot_name())),
            Command::In => (Stage::Positioning(Query::In), Action::AskPosition),
            Command::Count => match store.read() {
                None => (Stage::Done, Action::Reply(Message::AnalyzeFirst)),
                Some(_) => (Stage::Positioning(Query::Count), Action::AskPosition),
            },
            Command::Mark => match store.read() {
                None => (Stage::Done, Action::Reply(Message::AnalyzeFirst)),
                Some(_) => (Stage::Positioning(Query::Mark), Action::AskPosition),
            },
            Command::MarkAll => match store.read() {
                None => (Stage::Done, Action::Reply(Message::AnalyzeFirst)),
                Some(analysis) => {
                    let listing = analysis.entries();
                    let save = mark_chunks(listing.as_slice());
                    let action = Action::Load(save, true, (0, 0, 0));
                    assert(lists_in_key_order(listing@, analysis@) && loads_markers(
                        action,
                        listing@,
                    ));
                    (Stage::Loading(Marking::All), action)
                },
            },
            Command::Clear => (Stage::Clearing, Action::ClearOwner(marker_owner_uuid(), true)),
            Command::Unknown(word) => (
                Stage::Done,
                Action::Reply(Message::UnknownSubcommand(word)),
            ),
        },
    }
}

/// Opens a command: settles the user's access, reads the subcommand from
/// the first argument and decides the first step. Without a configuration
/// the arguments are not looked at.
pub fn run_command(
    config: Option<&Config>,
    user: &String,
    args: &Vec<String>,
    store: &AnalysisStore,
) -> (step: (Stage, Action))
    requires
        config is Some ==> args.len() > 0,
    ensures
        match config {
            None => step.0 == Stage::Done && step.1 is Finish,
            Some(c) => exists|command: Command|
                #![auto]
                command_of(args[0]@, command) && begins(
                    access_under(Some(*c), user@),
                    command,
                    store@,
                    step.0,
                    step.1,
                ),
        },
{
    match config {
        None => (Stage::Done, Action::Finish),
        Some(c) => {
            let access = access_of(config, user);
            let command = Command::parse(&args[0]);
            let ghost asked = command;
            let step = begin(access, command, store);
            assert(command_of(args[0]@, asked) && begins(
                access_under(Some(*c), user@),
                asked,
                store@,
                step.0,
                step.1,
            ));
            step
        },
    }
}

/// What an analysis says of the chunk at `position`.
pub open spec fn count_reply(
    analysis: Map<(i32, i32, i32), ChunkStats>,
    position: (i32, i32, i32),
) -> Message {
    let key = chunk_key(position);
    if analysis.contains_key(key) {
        Message::ChunkCount(key, analysis[key])
    } else {
        Message::ChunkEmpty
    }
}

/// The step after `event` at `stage`. An event that the stage was not
/// waiting for ends the command as out of turn.
pub open spec fn advances(
    stage: Stage,
    event: Event,
    analysis: Option<Map<(i32, i32, i32), ChunkStats>>,
    costs: Map<Seq<char>, u32>,
    next: Stage,
    action: Action,
) -> bool {
    match (stage, event) {
        (Stage::Saving, Event::SnapshotSaved(saved)) => if saved {
            next == Stage::Settling && action == Action::Wait(SETTLE_MILLIS)
        } else {
            ends_with(next, action, Message::SaveFailed)
        },
        (Stage::Settling, Event::DelayElapsed) => {
            &&& next == Stage::Locating
            &&& action matches Action::FindSnapshot(name) && name@ == save_name()
        },
        (Stage::Locating, Event::SnapshotLocated(Some(path))) => {
            &&& next == Stage::Reading
            &&& action matches Action::ReadSnapshot(place) && place@ == path@
        },
        (Stage::Locating, Event::SnapshotLocated(None)) => ends_with(
            next,
            action,
            Message::SaveNotFound,
        ),
        (Stage::Reading, Event::SnapshotRead(objects, assets)) => {
            if !assets_known(objects@, assets@.len()) {
                fails_with(next, action, Failure::Aggregate(AggregateError::UnknownAsset))
            } else if !totals_fit(objects@, texts(assets@), costs) {
                fails_with(next, action, Failure::Aggregate(AggregateError::CostOverflow))
            } else {
                &&& next == Stage::Storing
                &&& action matches Action::Store(fresh) && fresh@ == aggregate_of(
                    objects@,
                    texts(assets@),
                    costs,
                )
            }
        },
        (Stage::Reading, Event::SnapshotUnreadable) => fails_with(
            next,
            action,
            Failure::SnapshotUnreadable,
        ),
        (Stage::Storing, Event::Stored) => ends_with(next, action, Message::Analyzed),
        (Stage::Positioning(_), Event::PositionFailed) => fails_with(
            next,
            action,
            Failure::PositionQuery,
        ),
        (Stage::Positioning(_), Event::PositionUnknown) => fails_with(
            next,
            action,
            Failure::NoPosition,
        ),
        (Stage::Positioning(Query::In), Event::PositionKnown(position)) => ends_with(
            next,
            action,
            Message::InChunk(chunk_key(position)),
        ),
        (Stage::Positioning(Query::Count), Event::PositionKnown(position)) => match analysis {
            None => ends_with(next, action, Message::AnalyzeFirst),
            Some(chunks) => ends_with(next, action, count_reply(chunks, position)),
        },
        (Stage::Positioning(Query::Mark), Event::PositionKnown(position)) => match analysis {
            None => ends_with(next, action, Message::AnalyzeFirst),
            Some(chunks) => {
                &&& next == Stage::Loading(Marking::One)
                &&& loads_markers(
                    action,
                    seq![(chunk_key(position), chunks.get(chunk_key(position)))],
                )
            },
        },
        (Stage::Loading(marking), Event::Loaded(loaded)) => if !loaded {
            fails_with(next, action, Failure::LoadFailed)
        } else {
            match marking {
                Marking::One => ends_with(next, action, Message::ChunkMarked),
                Marking::All => ends_with(next, action, Message::AllMarked),
            }
        },
        (Stage::Clearing, Event::Cleared) => ends_with(next, action, Message::MarkersCleared),
        _ => fails_with(next, action, Failure::OutOfTurn),
    }
}

/// Decides the step after `event`.
pub fn advance(stage: Stage, event: Event, store: &AnalysisStore, costs: &CostTable) -> (step: (
    Stage,
    Action,
))
    ensures
        advances(stage, event, store@, costs@, step.0, step.1),
{
    match (stage, event) {
        (Stage::Saving, Event::SnapshotSaved(saved)) => if saved {
            (Stage::Settling, Action::Wait(SETTLE_MILLIS))
        } else {
            (Stage::Done, Action::Reply(Message::SaveFailed))
        },
        (Stage::Settling, Event::DelayElapsed) => (
            Stage::Locating,
            Action::FindSnapshot(snapshot_name()),
        ),
        (Stage::Locating, Event::SnapshotLocated(Some(path))) => (
            Stage::Reading,
            Action::ReadSnapshot(path),
        ),
        (Stage::Locating, Event::SnapshotLocated(None)) => (
            Stage::Done,
            Action::Reply(Message::SaveNotFound),
        ),
        (Stage::Reading, Event::SnapshotRead(objects, assets)) => match aggregate(
            &objects,
            &assets,
            costs,
        ) {
            Ok(fresh) => (Stage::Storing, Action::Store(fresh)),
            Err(error) => (Stage::Done, Action::Fail(Failure::Aggregate(error))),
        },
        (Stage::Reading, Event::SnapshotUnreadable) => (
            Stage::Done,
            Action::Fail(Failure::SnapshotUnreadable),
        ),
        (Stage::Storing, Event::Stored) => (Stage::Done, Action::Reply(Message::Analyzed)),
        (Stage::Positioning(_), Event::PositionFailed) => (
            Stage::Done,
            Action::Fail(Failure::PositionQuery),
        ),
        (Stage::Positioning(_), Event::PositionUnknown) => (
            Stage::Done,
            Action::Fail(Failure::NoPosition),
        ),
        (Stage::Positioning(Query::In), Event::PositionKnown(position)) => (
            Stage::Done,
            Action::Reply(Message::InChunk(pos_to_chunk(position))),
        ),
        (Stage::Positioning(Query::Count), Event::PositionKnown(position)) => match store.read() {
            None => (Stage::Done, Action::Reply(Message::AnalyzeFirst)),
            Some(analysis) => {
                let key = pos_to_chunk(position);
                match analysis.get(key) {
                    Some(stats) => (Stage::Done, Action::Reply(Message::ChunkCount(key, stats))),
                    None => (Stage::Done, Action::Reply(Message::ChunkEmpty)),
                }
            },
        },
        (Stage::Positioning(Query::Mark), Event::PositionKnown(position)) => match store.read() {
            None => (Stage::Done, Action::Reply(Message::AnalyzeFirst)),
            Some(analysis) => {
                let key = pos_to_chunk(position);
                let mut chunks: Vec<((i32, i32, i32), Option<ChunkStats>)> = Vec::new();
                chunks.push((key, analysis.get(key)));
                let save = mark_chunks(chunks.as_slice());
                assert(chunks@ =~= seq![(key, analysis@.get(key))]);
                (Stage::Loading(Marking::One), Action::Load(save, true, (0, 0, 0)))
            },
        },
        (Stage::Loading(marking), Event::Loaded(loaded)) => if !loaded {
            (Stage::Done, Action::Fail(Failure::LoadFailed))
        } else {
            match marking {
                Marking::One => (Stage::Done, Action::Reply(Message::ChunkMarked)),
                Marking::All => (Stage::Done, Action::Reply(Message::AllMarked)),
            }
        },
        (Stage::Clearing, Event::Cleared) => (Stage::Done, Action::Reply(Message::MarkersCleared)),
        _ => (Stage::Done, Action::Fail(Failure::OutOfTurn)),
    }
}

/// Without an analysis, `count` answers that one has to be made first:
/// at once, and again should the position of any user arrive after all.
pub proof fn lemma_count_needs_analysis(
    position: (i32, i32, i32),
    costs: Map<Seq<char>, u32>,
    stage: Stage,
    action: Action,
)
    requires
        begins(Access::Granted, Command::Count, None, stage, action) || advances(
            Stage::Positioning(Query::Count),
            Event::PositionKnown(position),
            None,
            costs,
            stage,
            action,
        ),
    ensures
        stage == Stage::Done,
        action == Action::Reply(Message::AnalyzeFirst),
{
}

/// Marking all chunks of an analysis that holds none still loads a save:
/// one without a single marker.
pub proof fn lemma_mark_all_of_nothing(stage: Stage, action: Action)
    requires
        begins(Access::Granted, Command::MarkAll, Some(Map::empty()), stage, action),
    ensures
        stage == Stage::Loading(Marking::All),
        action matches Action::Load(save, _, _) && save.bricks@.len() == 0,
{
    let listing = choose|listing: Seq<((i32, i32, i32), Option<ChunkStats>)>|
        #![auto]
        lists_in_key_order(listing, Map::empty()) && loads_markers(action, listing);
    if listing.len() > 0 {
        assert(Map::<(i32, i32, i32), ChunkStats>::empty().contains_key(listing[0].0));
    }
}

} // verus!
