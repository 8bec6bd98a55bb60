//! Participation limits across arenas.

/// Participation counters after a completed game. The full game cycle (factory,
/// rounds, resolution, claim) is not part of this crate, so the test has no body.
#[test]
fn test_participation_counter_decrement_after_game() {}
