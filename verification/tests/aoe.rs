use tfs_core::combat::aoe::{aoe_cast_blocked, aoe_no_damage, aoe_signed_damage, aoe_spares_target, aoe_tile_action, aoe_tile_position};
use tfs_core::ids::Position;
use tfs_core::combat::aoe::{
    combat_type_from_lua, create_item_applies_infight, remap_create_item_id, ITEM_ENERGYFIELD_NOPVP,
    ITEM_ENERGYFIELD_PERSISTENT, ITEM_ENERGYFIELD_PVP, ITEM_FIREFIELD_NOPVP, ITEM_FIREFIELD_PERSISTENT_FULL,
    ITEM_FIREFIELD_PERSISTENT_SMALL, ITEM_FIREFIELD_PVP_FULL, ITEM_FIREFIELD_PVP_SMALL, ITEM_MAGICWALL_NOPVP,
    ITEM_MAGICWALL_PERSISTENT, ITEM_POISONFIELD_PVP,
};
use tfs_core::combat::pvp::{WorldType, ZoneType};
use tfs_core::combat::CombatType;

#[test]
fn remap_persistent_fire_to_pvp() {
    assert_eq!(
        remap_create_item_id(ITEM_FIREFIELD_PERSISTENT_FULL, WorldType::Pvp, ZoneType::Normal, true),
        ITEM_FIREFIELD_PVP_FULL
    );
}

#[test]
fn remap_pvp_fire_to_nopvp_in_nopvp_world() {
    assert_eq!(
        remap_create_item_id(ITEM_FIREFIELD_PVP_FULL, WorldType::NoPvp, ZoneType::Normal, true),
        ITEM_FIREFIELD_NOPVP
    );
}

#[test]
fn remap_skips_nopvp_for_non_player_casters() {
    assert_eq!(
        remap_create_item_id(ITEM_FIREFIELD_PVP_FULL, WorldType::NoPvp, ZoneType::Normal, false),
        ITEM_FIREFIELD_PVP_FULL
    );
}

#[test]
fn remap_chains_and_zone_rules() {
    // Persistent magic wall in a no-PvP zone of a PvP world: PvP wall, then no-PvP wall.
    assert_eq!(
        remap_create_item_id(ITEM_MAGICWALL_PERSISTENT, WorldType::Pvp, ZoneType::NoPvp, true),
        ITEM_MAGICWALL_NOPVP
    );
    assert_eq!(
        remap_create_item_id(ITEM_ENERGYFIELD_PERSISTENT, WorldType::NoPvp, ZoneType::Normal, true),
        ITEM_ENERGYFIELD_NOPVP
    );
    // Small fire fields have no no-PvP kind.
    assert_eq!(
        remap_create_item_id(ITEM_FIREFIELD_PERSISTENT_SMALL, WorldType::NoPvp, ZoneType::NoPvp, true),
        ITEM_FIREFIELD_PVP_SMALL
    );
    assert_eq!(remap_create_item_id(2000, WorldType::NoPvp, ZoneType::NoPvp, true), 2000);
}

#[test]
fn infight_fields() {
    assert!(create_item_applies_infight(ITEM_FIREFIELD_PVP_FULL));
    assert!(create_item_applies_infight(ITEM_POISONFIELD_PVP));
    assert!(create_item_applies_infight(ITEM_ENERGYFIELD_PVP));
    assert!(!create_item_applies_infight(ITEM_FIREFIELD_NOPVP));
}

#[test]
fn script_combat_types() {
    assert_eq!(combat_type_from_lua(0), CombatType::Undefined);
    assert_eq!(combat_type_from_lua(1), CombatType::Physical);
    assert_eq!(combat_type_from_lua(8), CombatType::Fire);
    assert_eq!(combat_type_from_lua(32), CombatType::LifeDrain);
    assert_eq!(combat_type_from_lua(128), CombatType::Healing);
    assert_eq!(combat_type_from_lua(3), CombatType::Physical);
}

#[test]
fn area_tiles_and_hits() {
    assert!(aoe_cast_blocked(true, true));
    assert!(!aoe_cast_blocked(false, true));
    let c = Position::new(100, 5, 7);
    assert_eq!(aoe_tile_position(c, -1, 2), Some(Position::new(99, 7, 7)));
    assert_eq!(aoe_tile_position(c, 0, -6), None);
    assert_eq!(aoe_tile_position(Position::new(65535, 0, 7), 1, 0), Some(Position::new(0, 0, 7)));
    let a = aoe_tile_action(true, true, true, 5, 1492);
    assert!(!a.affected && !a.show_effect && !a.create_item);
    let a = aoe_tile_action(false, true, true, 5, 0);
    assert!(a.affected && a.show_effect && !a.create_item);
    let a = aoe_tile_action(false, false, false, 5, 7);
    assert!(!a.affected);
    assert!(aoe_no_damage(false, CombatType::Undefined, 1, 9));
    assert!(aoe_no_damage(false, CombatType::Fire, 0, 0));
    assert!(!aoe_no_damage(false, CombatType::Fire, 0, 5));
    assert!(aoe_spares_target(true, 4, Some(4)));
    assert!(!aoe_spares_target(false, 4, Some(4)));
    assert!(!aoe_spares_target(true, 4, Some(5)));
    assert_eq!(aoe_signed_damage(CombatType::Healing, -5, false, 0, false, 0), (0, None));
    assert_eq!(aoe_signed_damage(CombatType::Healing, 30, false, 0, false, 0), (30, None));
    assert_eq!(aoe_signed_damage(CombatType::Fire, 30, true, 99, true, 99), (-30, None));
    assert_eq!(aoe_signed_damage(CombatType::Physical, -40, true, 10, true, 5), (-25, None));
    assert_eq!(aoe_signed_damage(CombatType::Physical, 40, true, 50, false, 0), (0, Some(3)));
    assert_eq!(aoe_signed_damage(CombatType::Physical, 40, true, 30, true, 20), (0, Some(4)));
}
