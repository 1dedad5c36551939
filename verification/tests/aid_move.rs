use tfs_core::aid_move::{
    apply_i16_offset, gate_allows, resolve_effect_pos, resolve_reloc_from, resolve_reloc_to,
    resolve_reloc_to_pos, vocation_matches, AidMoveGate, AidMoveRelocSpec, EffectPosition, MoveActor,
    RelocFrom, RelocTo,
};
use tfs_core::ids::Position;

fn player(level: i32, premium: bool, vocation_id: i32) -> MoveActor {
    MoveActor { is_player: true, level, premium, vocation_id }
}

#[test]
fn offsets_clamp_to_the_map() {
    assert_eq!(apply_i16_offset(100, -5), 95);
    assert_eq!(apply_i16_offset(3, -5), 0);
    assert_eq!(apply_i16_offset(65530, 10), 65535);
    assert_eq!(apply_i16_offset(7, 0), 7);
}

#[test]
fn relocation_and_effect_targets() {
    let item = Position::new(100, 200, 7);
    assert_eq!(resolve_reloc_to_pos(&RelocTo::Absolute { x: 1, y: 2, z: 3 }, item), Position::new(1, 2, 3));
    assert_eq!(resolve_reloc_to_pos(&RelocTo::ItemXOffset { dx: -2, y: 9, z: 6 }, item), Position::new(98, 9, 6));
    assert_eq!(resolve_reloc_to_pos(&RelocTo::ItemRelative { dx: 1, dy: -3, z: 8 }, item), Position::new(101, 197, 8));
    assert_eq!(resolve_effect_pos(&EffectPosition::ItemPosition, item), item);
    assert_eq!(resolve_effect_pos(&EffectPosition::ItemRelative { dx: 0, dy: 2, z: 7 }, item), Position::new(100, 202, 7));
    let spec = AidMoveRelocSpec::Single { from: RelocFrom::ItemPosition, to: RelocTo::Absolute { x: 5, y: 5, z: 7 } };
    assert_eq!(resolve_reloc_from(&spec, item), item);
    let spec = AidMoveRelocSpec::Single { from: RelocFrom::Absolute { x: 4, y: 4, z: 7 }, to: RelocTo::Absolute { x: 5, y: 5, z: 7 } };
    assert_eq!(resolve_reloc_from(&spec, item), Position::new(4, 4, 7));
}

#[test]
fn gates() {
    let p = Some(player(20, false, 4));
    let monster = Some(MoveActor { is_player: false, level: 0, premium: false, vocation_id: 0 });
    assert!(gate_allows(&AidMoveGate::Always, None));
    assert!(gate_allows(&AidMoveGate::IsPlayer, p));
    assert!(!gate_allows(&AidMoveGate::IsPlayer, monster));
    assert!(!gate_allows(&AidMoveGate::IsPlayer, None));
    assert!(gate_allows(&AidMoveGate::PlayerLevelBelow { level: 21 }, p));
    assert!(!gate_allows(&AidMoveGate::PlayerLevelBelow { level: 20 }, p));
    assert!(gate_allows(&AidMoveGate::PlayerLevelBelow { level: u32::MAX }, p));
    assert!(gate_allows(&AidMoveGate::PlayerNotPremium, p));
    assert!(!gate_allows(&AidMoveGate::PlayerNotPremium, Some(player(20, true, 4))));
    let branch = AidMoveGate::VocationBranch { is_player: false, vocation_ids: vec![1] };
    assert!(gate_allows(&branch, None));
    let branch = AidMoveGate::VocationBranch { is_player: true, vocation_ids: vec![1] };
    assert!(!gate_allows(&branch, monster));
}

#[test]
fn vocation_branches() {
    let ids = vec![1u8, 5];
    assert!(vocation_matches(Some(player(1, false, 5)), &ids));
    assert!(!vocation_matches(Some(player(1, false, 4)), &ids));
    assert!(!vocation_matches(None, &ids));
    assert!(vocation_matches(Some(player(1, false, 300)), &vec![0u8]));
    let gate = AidMoveGate::VocationBranch { is_player: true, vocation_ids: ids };
    let item = Position::new(10, 10, 7);
    let spec = AidMoveRelocSpec::VocationBranch {
        from: RelocFrom::ItemPosition,
        then_to: RelocTo::Absolute { x: 1, y: 1, z: 7 },
        else_to: RelocTo::ItemXOffset { dx: 2, y: 10, z: 7 },
    };
    assert_eq!(resolve_reloc_to(&gate, &spec, item, Some(player(1, false, 1))), Position::new(1, 1, 7));
    assert_eq!(resolve_reloc_to(&gate, &spec, item, Some(player(1, false, 2))), Position::new(12, 10, 7));
    assert_eq!(resolve_reloc_to(&AidMoveGate::Always, &spec, item, Some(player(1, false, 1))), Position::new(12, 10, 7));
}
