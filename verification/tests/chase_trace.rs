use tfs_core::chase_trace::{
    json_escape_name, log_attack_enqueue, log_branch, log_combat_state, log_creature_death,
    log_damage_stimulus, log_go_exec, log_harness_player_step, log_idle_stimulus, log_parked,
    log_rng_resync, log_rng_trace, log_shortway, log_spell_cast, log_todo_go, log_todo_go_aligned,
    todo_go_via_from_path, trace_switch_on, default_trace_path,
};
use tfs_core::ids::Position;

fn p(x: u16, y: u16, z: u8) -> Position {
    Position::new(x, y, z)
}

#[test]
fn names_are_escaped() {
    assert_eq!(json_escape_name("Rat"), "Rat");
    assert_eq!(json_escape_name("a\"b\\c"), "a\\\"b\\\\c");
    assert_eq!(
        log_idle_stimulus(5, 3, "Evil \"Rat\""),
        "{\"src\":\"rust\",\"evt\":\"idle_stimulus\",\"tick\":5,\"id\":3,\"name\":\"Evil \\\"Rat\\\"\"}"
    );
}

#[test]
fn combat_state_line() {
    assert_eq!(
        log_combat_state(100, 7, "Rat", "attacking", "close", Some(9)),
        "{\"src\":\"rust\",\"evt\":\"combat_state\",\"tick\":100,\"id\":7,\"name\":\"Rat\",\"monster_state\":\"attacking\",\"chase_mode\":\"close\",\"attack_target\":9}"
    );
    assert_eq!(
        log_combat_state(0, 1, "Rat", "idle", "none", None),
        "{\"src\":\"rust\",\"evt\":\"combat_state\",\"tick\":0,\"id\":1,\"name\":\"Rat\",\"monster_state\":\"idle\",\"chase_mode\":\"none\"}"
    );
}

#[test]
fn attack_and_damage_lines() {
    assert_eq!(
        log_attack_enqueue(1, 2, "Rat", 2000, true, "close"),
        "{\"src\":\"rust\",\"evt\":\"attack_enqueue\",\"tick\":1,\"id\":2,\"name\":\"Rat\",\"wait_ms\":2000,\"needs_close_step\":1,\"close_chase\":\"close\"}"
    );
    assert_eq!(
        log_damage_stimulus(1, 2, "Rat", "idle", "attacking", 5, -3, false),
        "{\"src\":\"rust\",\"evt\":\"damage_stimulus\",\"tick\":1,\"id\":2,\"name\":\"Rat\",\"old_state\":\"idle\",\"new_state\":\"attacking\",\"attacker_id\":5,\"damage\":-3,\"had_target\":0}"
    );
    assert_eq!(
        log_spell_cast(4, 2, "Dragon", "fire\"ball", 8, "destination", 7),
        "{\"src\":\"rust\",\"evt\":\"spell_cast\",\"tick\":4,\"id\":2,\"name\":\"Dragon\",\"spell\":\"fire\\\"ball\",\"target_id\":8,\"shape\":\"destination\",\"range\":7}"
    );
}

#[test]
fn rng_lines() {
    assert_eq!(log_rng_trace(3, -1, None), "{\"src\":\"rust\",\"evt\":\"rng_trace\",\"call_index\":3,\"value\":-1}");
    assert_eq!(
        log_rng_trace(3, 42, Some("probe")),
        "{\"src\":\"rust\",\"evt\":\"rng_trace\",\"call_index\":3,\"value\":42,\"site\":\"probe\"}"
    );
    assert_eq!(log_rng_resync(18446744073709551615), "{\"src\":\"rust\",\"evt\":\"rng_resync\",\"seed\":18446744073709551615}");
}

#[test]
fn path_lines() {
    assert_eq!(todo_go_via_from_path(p(10, 10, 7), p(11, 10, 7)), "single");
    assert_eq!(todo_go_via_from_path(p(10, 10, 7), p(11, 11, 7)), "enter");
    assert_eq!(todo_go_via_from_path(p(10, 10, 7), p(10, 10, 7)), "enter");
    assert_eq!(
        log_todo_go(9, 1, "Rat", "enter", p(10, 10, 7), p(13, 8, 7), true, -1, Some("")),
        "{\"src\":\"rust\",\"evt\":\"todo_go\",\"tick\":9,\"id\":1,\"name\":\"Rat\",\"via\":\"enter\",\"from\":{\"x\":10,\"y\":10,\"z\":7},\"dest\":{\"x\":13,\"y\":8,\"z\":7},\"must\":1,\"max\":-1,\"cheb\":3}"
    );
    assert_eq!(
        log_todo_go_aligned(9, 1, "Rat", p(10, 10, 7), p(10, 9, 7), false, 12, Some("chase")),
        "{\"src\":\"rust\",\"evt\":\"todo_go\",\"tick\":9,\"id\":1,\"name\":\"Rat\",\"via\":\"single\",\"from\":{\"x\":10,\"y\":10,\"z\":7},\"dest\":{\"x\":10,\"y\":9,\"z\":7},\"must\":0,\"max\":12,\"cheb\":1,\"arm\":\"chase\"}"
    );
    assert_eq!(
        log_branch(2, 1, "Rat", "flee", p(5, 5, 7), p(1, 2, 7), false, 4, Some("hp")),
        "{\"src\":\"rust\",\"evt\":\"branch\",\"tick\":2,\"id\":1,\"name\":\"Rat\",\"branch\":\"flee\",\"from\":{\"x\":5,\"y\":5,\"z\":7},\"dest\":{\"x\":1,\"y\":2,\"z\":7},\"must\":0,\"max\":4,\"cheb\":4,\"reason\":\"hp\"}"
    );
}

#[test]
fn shortway_lists_steps() {
    let steps = [p(11, 10, 7), p(12, 11, 7)];
    assert_eq!(
        log_shortway(1, 2, "Rat", p(10, 10, 7), p(12, 11, 7), 1, 0, true, 20, true, &steps),
        "{\"src\":\"rust\",\"evt\":\"shortway\",\"tick\":1,\"id\":2,\"name\":\"Rat\",\"start\":{\"x\":10,\"y\":10,\"z\":7},\"dest\":{\"x\":12,\"y\":11,\"z\":7},\"rel_dest\":{\"x\":2,\"y\":1},\"visible\":1,\"min_wp\":0,\"must\":1,\"max\":20,\"ok\":1,\"steps\":[{\"x\":11,\"y\":10,\"z\":7},{\"x\":12,\"y\":11,\"z\":7}]}"
    );
    assert_eq!(
        log_shortway(1, 2, "Rat", p(10, 10, 7), p(8, 10, 7), 0, 3, false, 5, false, &[]),
        "{\"src\":\"rust\",\"evt\":\"shortway\",\"tick\":1,\"id\":2,\"name\":\"Rat\",\"start\":{\"x\":10,\"y\":10,\"z\":7},\"dest\":{\"x\":8,\"y\":10,\"z\":7},\"rel_dest\":{\"x\":-2,\"y\":0},\"visible\":0,\"min_wp\":3,\"must\":0,\"max\":5,\"ok\":0,\"steps\":[]}"
    );
}

#[test]
fn parked_go_exec_and_player_step() {
    assert_eq!(
        log_parked(3, 4, "Rat", p(1, 2, 7), "attacking", None, Some(8), "close", 2, true),
        "{\"src\":\"rust\",\"evt\":\"parked\",\"tick\":3,\"id\":4,\"name\":\"Rat\",\"pos\":{\"x\":1,\"y\":2,\"z\":7},\"state\":\"attacking\",\"chase_mode\":\"close\",\"cheb\":2,\"los_clear\":1,\"attack_target\":8}"
    );
    assert_eq!(
        log_go_exec(3, 4, "Rat", p(1, 2, 7), p(2, 3, 7)),
        "{\"src\":\"rust\",\"evt\":\"go_exec\",\"tick\":3,\"id\":4,\"name\":\"Rat\",\"from\":{\"x\":1,\"y\":2,\"z\":7},\"to\":{\"x\":2,\"y\":3,\"z\":7},\"diag\":1}"
    );
    assert!(log_go_exec(3, 4, "Rat", p(1, 2, 7), p(2, 2, 7)).ends_with("\"diag\":0}"));
    assert_eq!(
        log_harness_player_step(10, 2, p(5, 6, 7)),
        "{\"src\":\"rust\",\"evt\":\"harness_player_step\",\"tick\":10,\"step\":2,\"pos\":{\"x\":5,\"y\":6,\"z\":7}}"
    );
    assert_eq!(
        log_creature_death(1, 2, "Rat", 3, 5, 2813),
        "{\"src\":\"rust\",\"evt\":\"creature_death\",\"tick\":1,\"id\":2,\"name\":\"Rat\",\"killer_id\":3,\"experience\":5,\"corpse_id\":2813}"
    );
}

#[test]
fn trace_switch_values() {
    assert!(!trace_switch_on(None));
    assert!(!trace_switch_on(Some("")));
    assert!(!trace_switch_on(Some("0")));
    assert!(trace_switch_on(Some("1")));
    assert!(trace_switch_on(Some("00")));
    assert!(trace_switch_on(Some("yes")));
    assert_eq!(default_trace_path(), "log/chase_ai.jsonl");
}
