use tfs_core::combat::pvp::{
    can_player_attack_player, is_in_pvp_zone, is_protected, CombatDenyReason, PlayerPvpSnapshot, SkullType,
    WorldType, ZoneType,
};

fn player(level: u32, zone: ZoneType) -> PlayerPvpSnapshot {
    PlayerPvpSnapshot {
        level,
        skull: SkullType::NoSkull,
        target_skull_client: SkullType::NoSkull,
        zone,
        vocation_allows_pvp: true,
        secure_mode: false,
    }
}

#[test]
fn protection_level_and_zones() {
    let a = player(50, ZoneType::Normal);
    let low = player(10, ZoneType::Normal);
    assert!(is_protected(20, &a, &low));
    assert_eq!(can_player_attack_player(20, WorldType::Pvp, &a, &low), Err(CombatDenyReason::Protected));
    let b = player(50, ZoneType::Normal);
    assert_eq!(can_player_attack_player(20, WorldType::Pvp, &a, &b), Ok(()));
    assert_eq!(can_player_attack_player(20, WorldType::NoPvp, &a, &b), Err(CombatDenyReason::NoPvpWorld));
    let arena_a = player(50, ZoneType::Pvp);
    let arena_b = player(50, ZoneType::Pvp);
    assert!(is_in_pvp_zone(arena_a.zone, arena_b.zone));
    assert_eq!(can_player_attack_player(20, WorldType::NoPvp, &arena_a, &arena_b), Ok(()));
    let safe = player(50, ZoneType::NoPvp);
    assert_eq!(can_player_attack_player(20, WorldType::Pvp, &a, &safe), Err(CombatDenyReason::TargetNoPvpZone));
    assert_eq!(can_player_attack_player(20, WorldType::Pvp, &safe, &a), Err(CombatDenyReason::AttackerNoPvpZone));
    let mut secure = a;
    secure.secure_mode = true;
    assert_eq!(can_player_attack_player(20, WorldType::Pvp, &secure, &b), Err(CombatDenyReason::SecureModeUnmarkedTarget));
}
