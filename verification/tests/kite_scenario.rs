use tfs_core::creature::monster::MonsterState;
use tfs_core::kite_scenario::{
    capitalize_monster, monster_spawn_name, parse_monster_state, parse_scenario,
    player_pos_drains_before_teleport, scenario_advance_budget, scenario_walk_positions,
    step_followed_by_player_pos, ScenarioStep,
};
use tfs_core::ids::Position;

#[test]
fn parses_player_damage_and_monster_state() {
    let input = r#"
name test
monster rat 1 2
monster_state sleeping
player_damage 5
monster_appear
"#;
    let s = parse_scenario(input).expect("parse");
    assert_eq!(s.monster_initial_state, MonsterState::Sleeping);
    assert!(matches!(s.steps[0], ScenarioStep::PlayerDamage(5)));
}

#[test]
fn parses_kite_rat_melee_shape() {
    let input = "# kite a rat\nname kite_rat_melee\narena 32360 32290 5\nmonster rat 32362 32290\n\nmonster_appear\nsim_tick\nadvance_ms 500\nplayer_pos 32359 32290\nsim_tick\n";
    let s = parse_scenario(input).expect("parse");
    assert_eq!(s.name, "kite_rat_melee");
    assert_eq!(s.arena_center, (32360, 32290));
    assert_eq!(s.monsters.len(), 1);
    assert_eq!(s.monsters[0].label, "rat");
    assert!(s.monster_load_type);
    assert!(s.steps.iter().any(|st| matches!(st, ScenarioStep::MonsterAppear)));
    assert!(s.steps.iter().filter(|st| matches!(st, ScenarioStep::SimTick)).count() >= 2);
    assert_eq!(scenario_advance_budget(&s.steps), 500);
    assert!(step_followed_by_player_pos(&s.steps, 2));
    assert!(player_pos_drains_before_teleport(&s.steps, 3));
    assert!(!player_pos_drains_before_teleport(&s.steps, 0));
}

#[test]
fn parses_settings_and_defaults() {
    let input = "name quad\r\nmonster cyclops 1 1\nmonster cyclops 2 2\nmonster_melee_skill 50\nmonster_melee_attack 30\nmonster_talks +5\nmonster_speed -20\nz 6\nplayer_name Knight\nplayer_damage_monster 1 -7\n";
    let s = parse_scenario(input).expect("parse");
    assert_eq!(s.monsters.len(), 2);
    assert!(s.monsters.iter().all(|m| m.label == "cyclops"));
    assert_eq!(s.monster_melee_skill, 50);
    assert_eq!(s.monster_melee_attack, 30);
    assert_eq!(s.monster_talks, 5);
    assert_eq!(s.monster_speed, -20);
    assert!(s.monster_speed_from_scenario);
    assert_eq!(s.z, 6);
    assert_eq!(s.player_name, "Knight");
    assert_eq!(s.default_wp, 150);
    assert_eq!(s.arena_radius, 5);
    assert_eq!(s.monster_defense, 3);
    assert!(matches!(s.steps[0], ScenarioStep::PlayerDamageMonster(1, -7)));
    assert_eq!(
        scenario_walk_positions(&s),
        vec![Position::new(32360, 32290, 6), Position::new(1, 1, 6), Position::new(2, 2, 6)]
    );
}

#[test]
fn scenario_errors() {
    assert_eq!(parse_scenario("monster rat 1 2\nsim_tick\n").err().unwrap(), "missing scenario name");
    assert_eq!(
        parse_scenario("name x\nsim_tick\n").err().unwrap(),
        "scenario has no monster spawn(s) — add one or more `monster <label> x y` lines"
    );
    assert_eq!(parse_scenario("name x\nmonster rat 1 2\n").err().unwrap(), "scenario has no script steps");
    assert_eq!(parse_scenario("name x\nfly 3\n").err().unwrap(), "unknown scenario verb: fly");
    assert_eq!(parse_scenario("name\n").err().unwrap(), "unknown scenario verb: name");
    assert_eq!(parse_scenario("z 300\n").err().unwrap(), "bad z");
    assert_eq!(parse_scenario("arena 1 -2 3\n").err().unwrap(), "bad arena y");
    assert_eq!(parse_scenario("advance_ms 1x\n").err().unwrap(), "bad advance_ms");
    assert_eq!(
        parse_scenario("monster_state Dizzy\n").err().unwrap(),
        "unknown monster_state: dizzy"
    );
}

#[test]
fn monster_state_names_ignore_case() {
    assert_eq!(parse_monster_state("UNDER_ATTACK"), Ok(MonsterState::UnderAttack));
    assert_eq!(parse_monster_state("underattack"), Ok(MonsterState::UnderAttack));
    assert_eq!(parse_monster_state("Panic"), Ok(MonsterState::Panic));
    assert_eq!(parse_monster_state("Idle"), Ok(MonsterState::Idle));
    assert_eq!(parse_monster_state("Hungry").err().unwrap(), "unknown monster_state: hungry");
}

#[test]
fn monster_names_are_capitalized() {
    assert_eq!(capitalize_monster("rat"), "Rat");
    assert_eq!(capitalize_monster(""), "");
    assert_eq!(capitalize_monster("élan"), "Élan");
    assert_eq!(monster_spawn_name("rat", 0, 1), "Rat");
    assert_eq!(monster_spawn_name("cyclops", 2, 4), "Cyclops 3");
}
