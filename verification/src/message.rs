//! What a command ends with: the words for the user, or the failure.
use vstd::prelude::*;
use vstd::string::*;
use crate::aggregate::AggregateError;
use crate::classify::{ChunkStats, COLLIDER_LIMIT};
use crate::text::{decimal, decimal_text, triple_text, triple_to_text};

verus! {

/// What the user is told at the end of a command.
#[derive(Debug)]
pub enum Message {
    NotAuthorized,
    SaveFailed,
    SaveNotFound,
    Analyzed,
    /// The chunk the user stands in.
    InChunk((i32, i32, i32)),
    /// What the user's chunk holds.
    ChunkCount((i32, i32, i32), ChunkStats),
    /// The user's chunk holds nothing.
    ChunkEmpty,
    /// There is no analysis yet.
    AnalyzeFirst,
    ChunkMarked,
    AllMarked,
    MarkersCleared,
    /// The word that is no subcommand.
    UnknownSubcommand(String),
}

/// Why a command ended without a message of its own.
#[derive(Clone, Copy, Debug, PartialEq, Eq, Structural)]
pub enum Failure {
    /// The user is not in the world.
    NoPosition,
    /// The position could not be asked for.
    PositionQuery,
    /// The snapshot could not be read.
    SnapshotUnreadable,
    /// The snapshot could not be summed.
    Aggregate(AggregateError),
    /// The marker save was not loaded.
    LoadFailed,
    /// The event is not the one the command was waiting for.
    OutOfTurn,
}

/// The colour in which a physics cost is written: red over the limit, green
/// up to it.
pub open spec fn cost_color(physics_cost: u32) -> Seq<char> {
    if physics_cost > COLLIDER_LIMIT {
        "a00"@
    } else {
        "0a0"@
    }
}

/// The words of the count of a chunk.
pub open spec fn count_text(chunk: (i32, i32, i32), stats: ChunkStats) -> Seq<char> {
    "There are <b>"@ + decimal(stats.object_count as nat) + " bricks</>, <b><color=\""@
        + cost_color(stats.physics_cost) + "\">"@ + decimal(stats.physics_cost as nat)
        + " colliders</></>, and <b>"@ + decimal(stats.component_cost as nat)
        + " components</> in the chunk "@ + triple_text(chunk) + "."@
}

/// The words of each message.
pub open spec fn message_text(message: Message) -> Seq<char> {
    match message {
        Message::NotAuthorized => "<color=\"a00\">You are not authorized to use this command!</>"@,
        Message::SaveFailed => "<color=\"a00\">Failed to save!</>"@,
        Message::SaveNotFound => "<color=\"a00\">Failed to find save! Try again.</>"@,
        Message::Analyzed => "<color=\"0a0\">The save has been analyzed. Any subsequent changes must be reanalyzed.</>"@,
        Message::InChunk(chunk) => "You are in chunk "@ + triple_text(chunk) + "."@,
        Message::ChunkCount(chunk, stats) => count_text(chunk, stats),
        Message::ChunkEmpty => "<color=\"a00\">This chunk has no bricks or colliders!</>"@,
        Message::AnalyzeFirst => "<color=\"a00\">The save has not been analyzed! Analyze it first with <code>/chunks analyze</>.</>"@,
        Message::ChunkMarked => "<color=\"0a0\">Your chunk has been marked.</>"@,
        Message::AllMarked => "<color=\"0a0\">All chunks have been marked.</>"@,
        Message::MarkersCleared => "<color=\"0a0\">Chunk markers have been cleared.</>"@,
        Message::UnknownSubcommand(word) => "Unknown subcommand "@ + word@ + "."@,
    }
}

/// What went wrong, in a few words.
pub open spec fn failure_text(failure: Failure) -> Seq<char> {
    match failure {
        Failure::NoPosition => "player has no position"@,
        Failure::PositionQuery => "the player's position could not be asked for"@,
        Failure::SnapshotUnreadable => "the save could not be read"@,
        Failure::Aggregate(AggregateError::UnknownAsset) => {
            "the save names an asset that it does not list"@
        },
        Failure::Aggregate(AggregateError::CostOverflow) => {
            "the totals of a chunk are out of range"@
        },
        Failure::LoadFailed => "the markers could not be loaded"@,
        Failure::OutOfTurn => "an event arrived out of turn"@,
    }
}

/// The line that reports a failure.
pub open spec fn report_text(failure: Failure) -> Seq<char> {
    "An error occurred: "@ + failure_text(failure)
}

impl Message {
    /// The words of this message.
    pub fn text(&self) -> (text: String)
        ensures
            text@ == message_text(*self),
    {
        match self {
            Message::NotAuthorized => String::from_str(
                "<color=\"a00\">You are not authorized to use this command!</>",
            ),
            Message::SaveFailed => String::from_str("<color=\"a00\">Failed to save!</>"),
            Message::SaveNotFound => String::from_str(
                "<color=\"a00\">Failed to find save! Try again.</>",
            ),
            Message::Analyzed => String::from_str(
                "<color=\"0a0\">The save has been analyzed. Any subsequent changes must be reanalyzed.</>",
            ),
            Message::InChunk(chunk) => {
                let mut text = String::from_str("You are in chunk ");
                text.append(triple_to_text(*chunk).as_str());
                text.append(".");
                text
            },
            Message::ChunkCount(chunk, stats) => {
                let mut text = String::from_str("There are <b>");
                text.append(decimal_text(stats.object_count as u64).as_str());
                text.append(" bricks</>, <b><color=\"");
                if stats.physics_cost > COLLIDER_LIMIT {
                    text.append("a00");
                } else {
                    text.append("0a0");
                }
                text.append("\">");
                text.append(decimal_text(stats.physics_cost as u64).as_str());
                text.append(" colliders</></>, and <b>");
                text.append(decimal_text(stats.component_cost as u64).as_str());
                text.append(" components</> in the chunk ");
                text.append(triple_to_text(*chunk).as_str());
                text.append(".");
                text
            },
            Message::ChunkEmpty => String::from_str(
                "<color=\"a00\">This chunk has no bricks or colliders!</>",
            ),
            Message::AnalyzeFirst => String::from_str(
                "<color=\"a00\">The save has not been analyzed! Analyze it first with <code>/chunks analyze</>.</>",
            ),
            Message::ChunkMarked => String::from_str(
                "<color=\"0a0\">Your chunk has been marked.</>",
            ),
            Message::AllMarked => String::from_str(
                "<color=\"0a0\">All chunks have been marked.</>",
            ),
            Message::MarkersCleared => String::from_str(
                "<color=\"0a0\">Chunk markers have been cleared.</>",
            ),
            Message::UnknownSubcommand(word) => {
                let mut text = String::from_str("Unknown subcommand ");
                text.append(word.as_str());
                text.append(".");
                text
            },
        }
    }
}

impl Failure {
    /// What went wrong, in a few words.
    pub fn text(&self) -> (text: String)
        ensures
            text@ == failure_text(*self),
    {
        match self {
            Failure::NoPosition => String::from_str("player has no position"),
            Failure::PositionQuery => String::from_str(
                "the player's position could not be asked for",
            ),
            Failure::SnapshotUnreadable => String::from_str("the save could not be read"),
            Failure::Aggregate(AggregateError::UnknownAsset) => String::from_str(
                "the save names an asset that it does not list",
            ),
            Failure::Aggregate(AggregateError::CostOverflow) => String::from_str(
                "the totals of a chunk are out of range",
            ),
            Failure::LoadFailed => String::from_str("the markers could not be loaded"),
            Failure::OutOfTurn => String::from_str("an event arrived out of turn"),
        }
    }

    /// The line that reports this failure.
    pub fn report(&self) -> (line: String)
        ensures
            line@ == report_text(*self),
    {
        let mut line = String::from_str("An error occurred: ");
        line.append(self.text().as_str());
        line
    }
}

} // verus!
