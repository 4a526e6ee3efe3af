use chunks::aggregate::AggregateError;
use chunks::classify::ChunkStats;
use chunks::message::{Failure, Message};
use chunks::text::{decimal_text, signed_decimal_text, triple_to_text};

#[test]
fn decimal_text_matches_std_formatting() {
    for n in [0u64, 1, 9, 10, 11, 99, 100, 101, 65000, 4294967295, 4294967296, u64::MAX] {
        assert_eq!(decimal_text(n), format!("{}", n));
    }
}

#[test]
fn signed_decimal_text_matches_std_formatting() {
    for n in [0i32, 1, -1, 10, -10, 511, -512, i32::MAX, i32::MIN, i32::MIN + 1] {
        assert_eq!(signed_decimal_text(n), format!("{}", n));
    }
}

#[test]
fn triples_are_written_like_tuples() {
    for t in [(0, 0, 0), (-1, 2, -3), (i32::MIN, i32::MAX, 0), (4194303, -4194304, 7)] {
        assert_eq!(triple_to_text(t), format!("{:?}", t));
    }
}

#[test]
fn count_message_colours_the_physics_cost() {
    let within = ChunkStats { object_count: 12, physics_cost: 65000, component_cost: 3 };
    assert_eq!(
        Message::ChunkCount((1, -2, 3), within).text(),
        "There are <b>12 bricks</>, <b><color=\"0a0\">65000 colliders</></>, and <b>3 components</> in the chunk (1, -2, 3)."
    );
    let over = ChunkStats { object_count: 12, physics_cost: 65001, component_cost: 300 };
    assert_eq!(
        Message::ChunkCount((0, 0, 0), over).text(),
        "There are <b>12 bricks</>, <b><color=\"a00\">65001 colliders</></>, and <b>300 components</> in the chunk (0, 0, 0)."
    );
}

#[test]
fn fixed_messages_have_their_words() {
    assert_eq!(
        Message::NotAuthorized.text(),
        "<color=\"a00\">You are not authorized to use this command!</>"
    );
    assert_eq!(Message::SaveFailed.text(), "<color=\"a00\">Failed to save!</>");
    assert_eq!(
        Message::SaveNotFound.text(),
        "<color=\"a00\">Failed to find save! Try again.</>"
    );
    assert_eq!(
        Message::Analyzed.text(),
        "<color=\"0a0\">The save has been analyzed. Any subsequent changes must be reanalyzed.</>"
    );
    assert_eq!(Message::InChunk((-4, 0, 9)).text(), "You are in chunk (-4, 0, 9).");
    assert_eq!(
        Message::ChunkEmpty.text(),
        "<color=\"a00\">This chunk has no bricks or colliders!</>"
    );
    assert_eq!(
        Message::AnalyzeFirst.text(),
        "<color=\"a00\">The save has not been analyzed! Analyze it first with <code>/chunks analyze</>.</>"
    );
    assert_eq!(Message::ChunkMarked.text(), "<color=\"0a0\">Your chunk has been marked.</>");
    assert_eq!(Message::AllMarked.text(), "<color=\"0a0\">All chunks have been marked.</>");
    assert_eq!(
        Message::MarkersCleared.text(),
        "<color=\"0a0\">Chunk markers have been cleared.</>"
    );
    assert_eq!(
        Message::UnknownSubcommand("fly".to_string()).text(),
        "Unknown subcommand fly."
    );
    assert_eq!(Message::UnknownSubcommand(String::new()).text(), "Unknown subcommand .");
}

#[test]
fn failures_are_reported_in_one_line() {
    let all = [
        Failure::NoPosition,
        Failure::PositionQuery,
        Failure::SnapshotUnreadable,
        Failure::Aggregate(AggregateError::UnknownAsset),
        Failure::Aggregate(AggregateError::CostOverflow),
        Failure::LoadFailed,
        Failure::OutOfTurn,
    ];
    for failure in all {
        assert!(!failure.text().is_empty());
        assert_eq!(failure.report(), format!("An error occurred: {}", failure.text()));
    }
    assert_eq!(Failure::NoPosition.report(), "An error occurred: player has no position");
}
