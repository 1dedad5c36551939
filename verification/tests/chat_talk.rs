use tfs_core::chat_talk::{
    addressed_too_many_text, check_for_muting, guild_membership_clause, mute_duration_seconds,
    muted_now_text, muted_still_text, record_message, record_talk, stamp_trade_channel,
    talk_in_say_range, talk_in_yell_range, talk_whisper_clear, trade_channel_blocked,
    PlayerTalkGuard, RECORD_MESSAGE_SLOT_AGE_ROUNDS,
};
use tfs_core::ids::Position;

fn pos(x: u16, y: u16, z: u8) -> Position {
    Position::new(x, y, z)
}

#[test]
fn say_box_is_asymmetric_7_by_5_same_z() {
    let s = pos(100, 100, 7);
    assert!(talk_in_say_range(s, pos(107, 105, 7)));
    assert!(!talk_in_say_range(s, pos(108, 105, 7)));
    assert!(!talk_in_say_range(s, pos(107, 106, 7)));
    assert!(!talk_in_say_range(s, pos(100, 100, 6)));
}

#[test]
fn yell_is_30_by_30_surface_multifloor() {
    let s = pos(100, 100, 7);
    assert!(talk_in_yell_range(s, pos(130, 130, 7)));
    assert!(!talk_in_yell_range(s, pos(131, 130, 7)));
    assert!(talk_in_yell_range(s, pos(100, 100, 5)));
    let under = pos(100, 100, 8);
    assert!(talk_in_yell_range(under, pos(100, 100, 8)));
    assert!(!talk_in_yell_range(under, pos(100, 100, 7)));
    assert!(!talk_in_yell_range(s, pos(100, 100, 8)));
}

#[test]
fn whisper_clear_is_chebyshev_1() {
    let s = pos(100, 100, 7);
    assert!(talk_whisper_clear(s, pos(101, 101, 7)));
    assert!(!talk_whisper_clear(s, pos(102, 100, 7)));
}

#[test]
fn record_talk_trips_on_fifth_hot_talk() {
    let mut g = PlayerTalkGuard::default();
    assert_eq!(record_talk(&mut g, 1000, 10), 0);
    assert_eq!(record_talk(&mut g, 1001, 10), 0);
    assert_eq!(record_talk(&mut g, 1002, 10), 0);
    assert_eq!(record_talk(&mut g, 1003, 10), 0);
    let mute = record_talk(&mut g, 1004, 10);
    assert_eq!(mute, 5);
    assert_eq!(g.muting_end_round, 15);
    assert_eq!(check_for_muting(&g, 10), 5);
    assert_eq!(check_for_muting(&g, 15), 0);
}

#[test]
fn record_message_caps_at_20_distinct() {
    let mut g = PlayerTalkGuard::default();
    for id in 1..=20 {
        assert_eq!(record_message(&mut g, id, 50), 0);
    }
    assert_eq!(record_message(&mut g, 21, 50), 5);
    assert_eq!(record_message(&mut g, 1, 50), 0, "same addressee reuses slot");
    let mut aged = PlayerTalkGuard::default();
    for id in 1..=20 {
        assert_eq!(record_message(&mut aged, id, 50), 0);
    }
    assert_eq!(
        record_message(&mut aged, 21, 50 + RECORD_MESSAGE_SLOT_AGE_ROUNDS + 1),
        0,
        "slots older than 600 rounds are reusable"
    );
}

#[test]
fn trade_stamp_is_120_rounds() {
    let mut g = PlayerTalkGuard::default();
    stamp_trade_channel(&mut g, 100);
    assert!(trade_channel_blocked(&g, 100));
    assert!(trade_channel_blocked(&g, 219));
    assert!(!trade_channel_blocked(&g, 220));
}

#[test]
fn guild_clause_rank_and_nick() {
    assert_eq!(
        guild_membership_clause(true, "He", "Test Guild", "Leader", "the nick").as_deref(),
        Some("You are Leader of the Test Guild (the nick)")
    );
    assert_eq!(
        guild_membership_clause(false, "She", "Test Guild", "", "").as_deref(),
        Some("She is a member of the Test Guild")
    );
    assert!(guild_membership_clause(true, "He", "", "Leader", "").is_none());
}

#[test]
fn mute_text_pluralizes() {
    assert_eq!(muted_now_text(1), "You are muted for 1 second.");
    assert_eq!(muted_now_text(5), "You are muted for 5 seconds.");
    assert_eq!(
        addressed_too_many_text(20),
        "You have addressed too many players. You are muted for 20 seconds."
    );
}

#[test]
fn still_muted_text_and_durations() {
    assert_eq!(muted_still_text(3), "You are still muted for 3 seconds.");
    assert!(mute_duration_seconds(2) >= mute_duration_seconds(1));
}

#[test]
fn talk_ranges_are_mutual_and_nested() {
    let a = pos(100, 100, 7);
    for (x, y, z) in [(101u16, 101u16, 7u8), (107, 95, 7), (108, 100, 7), (130, 70, 6), (100, 100, 8), (131, 100, 7)] {
        let b = pos(x, y, z);
        assert_eq!(talk_in_say_range(a, b), talk_in_say_range(b, a));
        assert_eq!(talk_in_yell_range(a, b), talk_in_yell_range(b, a));
        assert_eq!(talk_whisper_clear(a, b), talk_whisper_clear(b, a));
        assert!(!talk_whisper_clear(a, b) || talk_in_say_range(a, b));
        assert!(!talk_in_say_range(a, b) || talk_in_yell_range(a, b));
    }
    assert!(talk_in_yell_range(a, pos(130, 70, 6)));
    assert!(!talk_in_yell_range(a, pos(100, 100, 8)));
}
