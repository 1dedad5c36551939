use tfs_core::combat::CombatType;
use tfs_core::condition::ConditionType;
use tfs_core::creature::monster_combat::{
    combat_from_monster_type, parse_area_effect_name, parse_attr_i32, parse_shoot_effect_name,
    runtime_spell_in_attack_range, monster_has_melee_strike, spell_child_attr, MonsterCombatSnapshot,
    MonsterDefenses, MonsterFieldType, MonsterSpell, MonsterSpellNode, MonsterType, SpellImpact,
    SpellShape, SummonBlock,
};

fn spell_node(name: &str, attrs: &[(&str, &str)], children: &[(&str, &str)]) -> MonsterSpellNode {
    MonsterSpellNode {
        element: "attack".into(),
        attributes: attrs
            .iter()
            .chain(std::iter::once(&("name", name)))
            .map(|(k, v)| (k.to_string(), v.to_string()))
            .collect(),
        attribute_children: children.iter().map(|(k, v)| (k.to_string(), v.to_string())).collect(),
    }
}

fn defenses(spells: Vec<MonsterSpellNode>) -> MonsterDefenses {
    MonsterDefenses {
        armor: Some(1),
        defense: Some(3),
        immunity_poison: false,
        immunity_fire: false,
        immunity_energy: false,
        immunity_life_drain: false,
        see_invisible: false,
        immunity_physical: false,
        spells,
    }
}

/// A rat as its definition reads: melee skill 15, attack 7, armor 1, defense 3.
fn rat() -> MonsterType {
    MonsterType {
        attack_spells: vec![spell_node("melee", &[("skill", "15"), ("attack", "7")], &[])],
        summons: vec![],
        max_summons: 0,
        defenses: defenses(vec![]),
    }
}

#[test]
fn test_e0_runtime_spell_range() {
    let spell = MonsterSpell {
        delay: 4,
        range: 5,
        radius: 0,
        length: 0,
        spread: 0,
        min_cycle: 6,
        shape: SpellShape::Victim,
        impact: SpellImpact::Condition { condition: ConditionType::Poison, cycle: 20, min_cycle: 6 },
        shoot_effect: None,
        area_effect: None,
    };
    assert!(runtime_spell_in_attack_range(&spell, 5));
    assert!(!runtime_spell_in_attack_range(&spell, 6));
    assert!(monster_has_melee_strike(15, 1));
    assert!(!monster_has_melee_strike(15, 2));
    assert!(!monster_has_melee_strike(0, 1));
    let no_range = MonsterSpell { range: 0, ..spell };
    assert!(!runtime_spell_in_attack_range(&no_range, 0));
}

#[test]
fn test_e4_drunk_and_speed_parse() {
    let node = spell_node(
        "drunk",
        &[("delay", "5"), ("range", "7"), ("duration", "60000"), ("drunkness", "120")],
        &[("shooteffect", "energy")],
    );
    let spell = MonsterSpell::try_from_node(&node).expect("drunk spell");
    assert_eq!(spell.shape, SpellShape::Victim);
    assert!(matches!(spell.impact, SpellImpact::Drunk { drunkness: 120 }));
    assert_eq!(spell.shoot_effect, Some(5));

    let speed_node = spell_node(
        "speed",
        &[("delay", "8"), ("duration", "15000"), ("speed", "-75"), ("speedvariation", "25"), ("range", "7")],
        &[],
    );
    let speed = MonsterSpell::try_from_node(&speed_node).expect("speed spell");
    assert!(matches!(speed.impact, SpellImpact::Speed { percent: -75, variation: 25, duration: 15000 }));
}

#[test]
fn test_e0_unknown_spell_skipped() {
    let node = spell_node("weirdattack", &[("delay", "1")], &[]);
    assert!(MonsterSpell::try_from_node(&node).is_none());
    let mut mtype = rat();
    mtype.attack_spells.push(node);
    let snap = combat_from_monster_type(&mtype);
    assert_eq!(snap.spells.len(), 0);
    assert_eq!(snap.melee_skill, 15);
    assert_eq!(snap.melee_attack, 7);
    assert_eq!((snap.armor, snap.defense), (1, 3));
}

#[test]
fn melee_node_is_no_spell() {
    let node = spell_node("MeLeE", &[("skill", "20")], &[]);
    assert!(MonsterSpell::try_from_node(&node).is_none());
}

#[test]
fn shapes_from_attributes() {
    let wave = spell_node("fire", &[("length", "8"), ("spread", "3"), ("radius", "4")], &[]);
    let s = MonsterSpell::try_from_node(&wave).unwrap();
    assert_eq!(s.shape, SpellShape::Angle);
    assert_eq!((s.length, s.spread, s.radius), (8, 3, 4));

    let around_me = spell_node("physical", &[("radius", "3"), ("target", "0")], &[]);
    let s = MonsterSpell::try_from_node(&around_me).unwrap();
    assert_eq!(s.shape, SpellShape::Origin);
    assert_eq!(s.radius, 2);

    let fireball = spell_node("fire", &[("range", "7"), ("radius", "4"), ("target", "1")], &[("shooteffect", "fire")]);
    let s = MonsterSpell::try_from_node(&fireball).unwrap();
    assert_eq!(s.shape, SpellShape::Destination);
    assert_eq!((s.range, s.radius), (7, 3));
    assert_eq!(s.shoot_effect, Some(4));

    let drain = spell_node("lifedrain", &[("range", "1")], &[]);
    assert_eq!(MonsterSpell::try_from_node(&drain).unwrap().shape, SpellShape::Victim);

    let targeted = spell_node("energy", &[("target", "1")], &[]);
    assert_eq!(MonsterSpell::try_from_node(&targeted).unwrap().shape, SpellShape::Victim);

    let self_heal = spell_node("healing", &[("min", "10"), ("max", "30")], &[]);
    let s = MonsterSpell::try_from_node(&self_heal).unwrap();
    assert_eq!(s.shape, SpellShape::Actor);
    assert_eq!(s.impact, SpellImpact::Healing { base: 20, variation: 10 });
    assert!(!s.impact.is_aggressive());
}

#[test]
fn damage_takes_magnitudes() {
    let node = spell_node("Fire", &[("min", "-30"), ("max", "-90")], &[("areaeffect", "FireArea")]);
    let s = MonsterSpell::try_from_node(&node).unwrap();
    assert_eq!(s.impact, SpellImpact::Damage { element: CombatType::Fire, base: 60, variation: 30 });
    assert!(s.impact.is_aggressive());
    assert_eq!(s.area_effect, Some(7));
    let node = spell_node("lifedrain", &[("min", "-5"), ("max", "-10")], &[]);
    let s = MonsterSpell::try_from_node(&node).unwrap();
    assert_eq!(s.impact, SpellImpact::Damage { element: CombatType::LifeDrain, base: 7, variation: 2 });
    let node = spell_node("physical", &[], &[]);
    let s = MonsterSpell::try_from_node(&node).unwrap();
    assert_eq!(s.impact, SpellImpact::Damage { element: CombatType::Physical, base: 0, variation: 0 });
}

#[test]
fn healing_below_zero_is_zero() {
    let node = spell_node("healing", &[("min", "-40"), ("max", "10")], &[]);
    let s = MonsterSpell::try_from_node(&node).unwrap();
    assert_eq!(s.impact, SpellImpact::Healing { base: 0, variation: 25 });
}

#[test]
fn conditions_and_fields() {
    let node = spell_node("poisoncondition", &[("cycle", "20"), ("mincycle", "6"), ("range", "5"), ("delay", "4")], &[("shooteffect", "poison")]);
    let s = MonsterSpell::try_from_node(&node).unwrap();
    assert_eq!(s.impact, SpellImpact::Condition { condition: ConditionType::Poison, cycle: 20, min_cycle: 6 });
    assert_eq!((s.delay, s.range, s.min_cycle), (4, 5, 6));
    assert_eq!(s.shape, SpellShape::Victim);
    assert_eq!(s.shoot_effect, Some(15));
    for (name, ct) in [("firecondition", ConditionType::Fire), ("EnergyCondition", ConditionType::Energy)] {
        let s = MonsterSpell::try_from_node(&spell_node(name, &[("cycle", "3")], &[])).unwrap();
        assert_eq!(s.impact, SpellImpact::Condition { condition: ct, cycle: 3, min_cycle: 0 });
    }
    for (name, ft) in [
        ("poisonfield", MonsterFieldType::Poison),
        ("firefield", MonsterFieldType::Fire),
        ("energyfield", MonsterFieldType::Energy),
    ] {
        let node = spell_node(name, &[("range", "7"), ("radius", "1"), ("target", "1")], &[]);
        let s = MonsterSpell::try_from_node(&node).unwrap();
        assert_eq!(s.impact, SpellImpact::Field { field_type: ft });
        assert_eq!((s.shape, s.radius), (SpellShape::Destination, 0));
    }
    assert_eq!(MonsterFieldType::Energy.code(), 3);
}

#[test]
fn attribute_reading() {
    let node = spell_node("fire", &[("delay", "x9"), ("range", "+7"), ("min", "99999999999")], &[("ShootEffect", "bolt")]);
    assert_eq!(parse_attr_i32(&node, "delay", 4), 4);
    assert_eq!(parse_attr_i32(&node, "range", 0), 7);
    assert_eq!(parse_attr_i32(&node, "min", -1), -1);
    assert_eq!(parse_attr_i32(&node, "missing", 12), 12);
    assert_eq!(spell_child_attr(&node, "shooteffect"), Some("bolt".to_string()));
    assert_eq!(spell_child_attr(&node, "areaeffect"), None);
}

#[test]
fn effect_names() {
    assert_eq!(parse_shoot_effect_name("EARTH"), Some(15));
    assert_eq!(parse_shoot_effect_name("poisonarrow"), Some(6));
    assert_eq!(parse_shoot_effect_name("powerbolt"), Some(14));
    assert_eq!(parse_shoot_effect_name("holy"), None);
    assert_eq!(parse_area_effect_name("redspark"), Some(1));
    assert_eq!(parse_area_effect_name("WhiteNote"), Some(25));
    assert_eq!(parse_area_effect_name("holyarea"), None);
}

#[test]
fn summons_and_defenses_merge_after_attacks() {
    let mtype = MonsterType {
        attack_spells: vec![
            spell_node("melee", &[("skill", "23"), ("attack", "15"), ("poisoncycles", "100")], &[]),
            spell_node("fire", &[("min", "0"), ("max", "-100"), ("range", "7")], &[]),
        ],
        summons: vec![
            SummonBlock { name: "Poison Spider".to_string(), delay: 10, max: 2, force: false },
            SummonBlock { name: "Rat".to_string(), delay: 0, max: 0, force: true },
        ],
        max_summons: 0,
        defenses: defenses(vec![spell_node("healing", &[("min", "40"), ("max", "70")], &[])]),
    };
    let snap: MonsterCombatSnapshot = combat_from_monster_type(&mtype);
    assert_eq!((snap.melee_skill, snap.melee_attack, snap.poison_cycles), (23, 15, 100));
    assert_eq!(snap.spells.len(), 4);
    assert_eq!(snap.spells[0].impact, SpellImpact::Damage { element: CombatType::Fire, base: 50, variation: 50 });
    let first = &snap.spells[1];
    assert_eq!((first.delay, first.shape, first.radius, first.range), (10, SpellShape::Origin, 0, 0));
    assert_eq!(first.impact, SpellImpact::Summon { race: "Poison Spider".to_string(), max: 2, force: false });
    let second = &snap.spells[2];
    assert_eq!(second.delay, 1);
    assert_eq!(second.impact, SpellImpact::Summon { race: "Rat".to_string(), max: 1, force: true });
    assert!(matches!(snap.spells[3].impact, SpellImpact::Healing { base: 55, variation: 15 }));
    assert_eq!(MonsterCombatSnapshot::default().spells.len(), 0);
}
