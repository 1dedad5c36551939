//! Player records: skills, economy, social ties, unlocked outfits kept in reserved
//! storage keys, and level progression by experience.

use vstd::prelude::*;
use crate::creature::vocation::{
    base_walk_speed, experience_to_next_level, fits_i32, grown, total_exp, total_experience_for_level, walk_speed, StepSpeedModel,
    VocationProfile,
};
use crate::combat::math::exp_poly_fits;

verus! {

/// Inventory placeholder: the number of slots.
#[derive(Debug, Clone, Copy, PartialEq, Eq, Structural)]
pub struct PlayerInventory {
    pub capacity_slots: u16,
}

impl Default for PlayerInventory {
    fn default() -> (i: PlayerInventory)
        ensures
            i.capacity_slots == 0,
    {
        PlayerInventory { capacity_slots: 0 }
    }
}

/// Skill levels and the tries toward each next level (magic level: mana spent).
#[derive(Debug, Clone, Copy, PartialEq, Eq, Structural)]
pub struct PlayerSkills {
    pub fist: i32,
    pub club: i32,
    pub sword: i32,
    pub axe: i32,
    pub dist: i32,
    pub shielding: i32,
    pub fishing: i32,
    pub maglevel: i32,
    pub fist_tries: u64,
    pub club_tries: u64,
    pub sword_tries: u64,
    pub axe_tries: u64,
    pub dist_tries: u64,
    pub shielding_tries: u64,
    pub fishing_tries: u64,
    pub manaspent: u64,
}

impl Default for PlayerSkills {
    /// Level 10 in every combat skill and fishing, magic level 0, no tries.
    fn default() -> (s: PlayerSkills)
        ensures
            s == PlayerSkills::with_levels_spec(10, 10, 10, 10, 10, 10, 10, 0),
    {
        PlayerSkills::with_levels(10, 10, 10, 10, 10, 10, 10, 0)
    }
}

impl PlayerSkills {
    /// The given levels with no tries.
    pub open spec fn with_levels_spec(fist: i32, club: i32, sword: i32, axe: i32, dist: i32, shielding: i32, fishing: i32, maglevel: i32) -> PlayerSkills {
        PlayerSkills {
            fist, club, sword, axe, dist, shielding, fishing, maglevel,
            fist_tries: 0, club_tries: 0, sword_tries: 0, axe_tries: 0, dist_tries: 0,
            shielding_tries: 0, fishing_tries: 0, manaspent: 0,
        }
    }

    /// The given levels with no tries.
    pub fn with_levels(fist: i32, club: i32, sword: i32, axe: i32, dist: i32, shielding: i32, fishing: i32, maglevel: i32) -> (s: PlayerSkills)
        ensures
            s == Self::with_levels_spec(fist, club, sword, axe, dist, shielding, fishing, maglevel),
    {
        PlayerSkills {
            fist, club, sword, axe, dist, shielding, fishing, maglevel,
            fist_tries: 0, club_tries: 0, sword_tries: 0, axe_tries: 0, dist_tries: 0,
            shielding_tries: 0, fishing_tries: 0, manaspent: 0,
        }
    }
}

/// Bank balance and soul points.
#[derive(Debug, Clone, Copy, PartialEq, Eq, Structural)]
pub struct PlayerEconomy {
    pub balance: u64,
    pub soul: i32,
}

/// Party and guild membership; after leaving a party, the round of leaving and the
/// former party.
#[derive(Debug, Clone, Copy, PartialEq, Eq, Structural)]
pub struct PlayerSocial {
    pub party_id: Option<u32>,
    pub guild_id: Option<u32>,
    pub party_leaving_round: u32,
    pub former_party_id: Option<u32>,
}

impl Default for PlayerSocial {
    fn default() -> (s: PlayerSocial)
        ensures
            s == (PlayerSocial { party_id: None, guild_id: None, party_leaving_round: 0, former_party_id: None }),
    {
        PlayerSocial { party_id: None, guild_id: None, party_leaving_round: 0, former_party_id: None }
    }
}

// ---------------------------------------------------------------------------
// Outfits in storage
// ---------------------------------------------------------------------------

/// An unlocked look type and the bitmask of its owned addons.
#[derive(Debug, Clone, Copy, PartialEq, Eq, Structural)]
pub struct OutfitEntry {
    pub look_type: u16,
    pub addons: u8,
}

/// First key of the storage range that records outfits.
pub const PSTRG_OUTFITS_RANGE_START: u32 = 10_001_000;
/// Size of that range.
pub const PSTRG_OUTFITS_RANGE_SIZE: u32 = 500;

/// Whether a storage key records an outfit: `START..=START + SIZE`.
pub open spec fn is_outfit_key(key: u32) -> bool {
    key >= PSTRG_OUTFITS_RANGE_START && key - PSTRG_OUTFITS_RANGE_START <= PSTRG_OUTFITS_RANGE_SIZE
}

pub fn storage_key_is_outfit(key: u32) -> (r: bool)
    ensures
        r == is_outfit_key(key),
{
    key >= PSTRG_OUTFITS_RANGE_START && key - PSTRG_OUTFITS_RANGE_START <= PSTRG_OUTFITS_RANGE_SIZE
}

/// The outfit a stored value records: look type in the high 16 bits, addons in the low 8.
pub open spec fn decode_outfit(v: i32) -> OutfitEntry {
    OutfitEntry { look_type: ((v as u32) >> 16u32) as u16, addons: ((v as u32) & 0xffu32) as u8 }
}

/// The stored value of an outfit.
pub open spec fn encode_outfit(e: OutfitEntry) -> i32 {
    (((e.look_type as u32) << 16u32) | (e.addons as u32)) as i32
}

/// The storage entries that are not outfit records, in order.
pub open spec fn other_entries(s: Seq<(u32, i32)>) -> Seq<(u32, i32)>
    decreases s.len(),
{
    if s.len() == 0 {
        Seq::empty()
    } else if is_outfit_key(s.last().0) {
        other_entries(s.drop_last())
    } else {
        other_entries(s.drop_last()).push(s.last())
    }
}

/// The outfits the storage records, in order.
pub open spec fn outfit_entries(s: Seq<(u32, i32)>) -> Seq<OutfitEntry>
    decreases s.len(),
{
    if s.len() == 0 {
        Seq::empty()
    } else if is_outfit_key(s.last().0) {
        outfit_entries(s.drop_last()).push(decode_outfit(s.last().1))
    } else {
        outfit_entries(s.drop_last())
    }
}

/// The records that save `outs`: keys `START + 1`, `START + 2`, ... in order.
pub open spec fn outfit_records(outs: Seq<OutfitEntry>) -> Seq<(u32, i32)> {
    Seq::new(outs.len(), |i: int| ((PSTRG_OUTFITS_RANGE_START + i + 1) as u32, encode_outfit(outs[i])))
}

/// Takes the outfit records out of `storage` (keeping the other entries in order) and
/// returns the outfits they record.
pub fn take_outfits_from_storage(storage: &mut Vec<(u32, i32)>) -> (r: Vec<OutfitEntry>)
    ensures
        r@ == outfit_entries(old(storage)@),
        final(storage)@ == other_entries(old(storage)@),
{
    let ghost s0 = storage@;
    let mut outfits: Vec<OutfitEntry> = Vec::new();
    let mut kept: Vec<(u32, i32)> = Vec::new();
    let mut i: usize = 0;
    while i < storage.len()
        invariant
            storage@ == s0,
            i <= s0.len(),
            outfits@ == outfit_entries(s0.subrange(0, i as int)),
            kept@ == other_entries(s0.subrange(0, i as int)),
        decreases s0.len() - i,
    {
        let (key, value) = storage[i];
        proof {
            assert(s0.subrange(0, i + 1).drop_last() =~= s0.subrange(0, i as int));
        }
        if storage_key_is_outfit(key) {
            let look_type = ((value as u32) >> 16u32) as u16;
            let addons = ((value as u32) & 0xffu32) as u8;
            outfits.push(OutfitEntry { look_type, addons });
        } else {
            kept.push((key, value));
        }
        i = i + 1;
    }
    proof {
        assert(s0.subrange(0, i as int) =~= s0);
    }
    *storage = kept;
    outfits
}

/// Replaces the outfit records of `storage` by records of `outfits` (see
/// `outfit_records`), after the other entries.
pub fn write_outfits_into_storage(storage: &mut Vec<(u32, i32)>, outfits: &[OutfitEntry])
    requires
        outfits@.len() <= u32::MAX - PSTRG_OUTFITS_RANGE_START,
    ensures
        final(storage)@ == other_entries(old(storage)@) + outfit_records(outfits@),
{
    let ghost s0 = storage@;
    let mut kept: Vec<(u32, i32)> = Vec::new();
    let mut i: usize = 0;
    while i < storage.len()
        invariant
            storage@ == s0,
            i <= s0.len(),
            kept@ == other_entries(s0.subrange(0, i as int)),
        decreases s0.len() - i,
    {
        let (key, value) = storage[i];
        proof {
            assert(s0.subrange(0, i + 1).drop_last() =~= s0.subrange(0, i as int));
        }
        if !storage_key_is_outfit(key) {
            kept.push((key, value));
        }
        i = i + 1;
    }
    proof {
        assert(s0.subrange(0, i as int) =~= s0);
    }
    let ghost base = kept@;
    let mut base_key = PSTRG_OUTFITS_RANGE_START;
    let mut j: usize = 0;
    while j < outfits.len()
        invariant
            j <= outfits@.len(),
            outfits@.len() <= u32::MAX - PSTRG_OUTFITS_RANGE_START,
            base_key == PSTRG_OUTFITS_RANGE_START + j,
            kept@ == base + outfit_records(outfits@.subrange(0, j as int)),
        decreases outfits@.len() - j,
    {
        base_key = base_key + 1;
        let entry = outfits[j];
        let value = (((entry.look_type as u32) << 16u32) | (entry.addons as u32)) as i32;
        kept.push((base_key, value));
        j = j + 1;
        assert(kept@ =~= base + outfit_records(outfits@.subrange(0, j as int)));
    }
    proof {
        assert(outfits@.subrange(0, j as int) =~= outfits@);
    }
    *storage = kept;
}

proof fn lemma_decode_encode(e: OutfitEntry)
    ensures
        decode_outfit(encode_outfit(e)) == e,
{
    let lt = e.look_type;
    let ad = e.addons;
    assert((((((lt as u32) << 16u32) | (ad as u32)) as i32) as u32 >> 16u32) as u16 == lt) by (bit_vector);
    assert((((((lt as u32) << 16u32) | (ad as u32)) as i32) as u32 & 0xffu32) as u8 == ad) by (bit_vector);
}

proof fn lemma_entries_concat(a: Seq<(u32, i32)>, b: Seq<(u32, i32)>)
    ensures
        outfit_entries(a + b) == outfit_entries(a) + outfit_entries(b),
        other_entries(a + b) == other_entries(a) + other_entries(b),
    decreases b.len(),
{
    if b.len() == 0 {
        assert(a + b =~= a);
        assert(outfit_entries(a) + outfit_entries(b) =~= outfit_entries(a));
        assert(other_entries(a) + other_entries(b) =~= other_entries(a));
    } else {
        lemma_entries_concat(a, b.drop_last());
        assert((a + b).drop_last() =~= a + b.drop_last());
        assert((a + b).last() == b.last());
        assert((outfit_entries(a) + outfit_entries(b.drop_last())).push(decode_outfit(b.last().1))
            =~= outfit_entries(a) + outfit_entries(b.drop_last()).push(decode_outfit(b.last().1)));
        assert((other_entries(a) + other_entries(b.drop_last())).push(b.last())
            =~= other_entries(a) + other_entries(b.drop_last()).push(b.last()));
    }
}

proof fn lemma_other_entries_clean(s: Seq<(u32, i32)>)
    ensures
        outfit_entries(other_entries(s)) == Seq::<OutfitEntry>::empty(),
        other_entries(other_entries(s)) == other_entries(s),
    decreases s.len(),
{
    if s.len() > 0 {
        lemma_other_entries_clean(s.drop_last());
        if !is_outfit_key(s.last().0) {
            let p = other_entries(s.drop_last());
            assert(p.push(s.last()).drop_last() =~= p);
        }
    }
}

proof fn lemma_records(outs: Seq<OutfitEntry>)
    requires
        outs.len() <= PSTRG_OUTFITS_RANGE_SIZE,
    ensures
        outfit_entries(outfit_records(outs)) == outs,
        other_entries(outfit_records(outs)) == Seq::<(u32, i32)>::empty(),
    decreases outs.len(),
{
    if outs.len() > 0 {
        let p = outs.drop_last();
        lemma_records(p);
        assert(outfit_records(outs).drop_last() =~= outfit_records(p));
        lemma_decode_encode(outs.last());
        assert(outs =~= p.push(outs.last()));
    } else {
        assert(outfit_records(outs) =~= Seq::<(u32, i32)>::empty());
    }
}

/// Writing at most 500 outfits into storage and taking them out again gives back the
/// same outfits, in order, and leaves the entries that were not outfit records.
pub proof fn lemma_outfit_storage_round_trip(storage: Seq<(u32, i32)>, outfits: Seq<OutfitEntry>)
    requires
        outfits.len() <= PSTRG_OUTFITS_RANGE_SIZE,
    ensures
        outfit_entries(other_entries(storage) + outfit_records(outfits)) == outfits,
        other_entries(other_entries(storage) + outfit_records(outfits)) == other_entries(storage),
{
    lemma_entries_concat(other_entries(storage), outfit_records(outfits));
    lemma_other_entries_clean(storage);
    lemma_records(outfits);
    assert(Seq::<OutfitEntry>::empty() + outfits =~= outfits);
    assert(other_entries(storage) + Seq::<(u32, i32)>::empty() =~= other_entries(storage));
}

// ---------------------------------------------------------------------------
// Level progression
// ---------------------------------------------------------------------------

/// The part of a player that experience changes: level, experience, vitals, capacity
/// and walking speed, with the vocation that drives them.
#[derive(Debug, Clone, Copy, PartialEq, Eq, Structural)]
pub struct PlayerProgress {
    pub level: i32,
    pub experience: u64,
    pub health: i32,
    pub max_health: i32,
    pub mana: i32,
    pub max_mana: i32,
    pub capacity: i32,
    pub speed: i32,
    pub base_speed: i32,
    pub vocation_profile: VocationProfile,
    /// The group pins walking speed at the maximum.
    pub set_max_speed: bool,
}

/// The highest level experience can bring.
pub const MAX_PLAYER_LEVEL: i32 = 2000;

/// `p` moved to level `l` with health and mana shifted by `dh` and `dm`: maxima and
/// capacity as the vocation gives them at `l`, health kept within `1..=max` (1 wins
/// when the maximum is below it), mana within `0..=max`, speed as at `l`.
pub open spec fn at_level(p: PlayerProgress, l: i32, dh: int, dm: int, model: StepSpeedModel) -> PlayerProgress {
    let v = p.vocation_profile;
    let max_hp = grown(v.base_hp, v.gain_hp, l);
    let max_mana = grown(v.base_mana, v.gain_mana, l);
    let h = p.health + dh;
    let m = p.mana + dm;
    let h1 = if h < max_hp { h } else { max_hp };
    let m1 = if m < max_mana { m } else { max_mana };
    let sp = walk_speed(model, v.base_speed, l, p.set_max_speed);
    PlayerProgress {
        level: l,
        max_health: max_hp as i32,
        health: (if h1 < 1 { 1 } else { h1 }) as i32,
        max_mana: max_mana as i32,
        mana: (if m1 < 0 { 0 } else { m1 }) as i32,
        capacity: grown(v.base_cap, v.gain_cap, l) as i32,
        speed: sp as i32,
        base_speed: sp as i32,
        ..p
    }
}

/// Moving to level `l` with shifts `dh`, `dm` stays within `i32`.
pub open spec fn step_fits(p: PlayerProgress, l: i32, dh: int, dm: int) -> bool {
    let v = p.vocation_profile;
    &&& v.vitals_fit(l)
    &&& fits_i32(p.health + dh)
    &&& fits_i32(p.mana + dm)
    &&& fits_i32(v.base_speed + 2 * ((if l < 1 { 1 } else { l as int }) - 1))
}

/// Whether `p` gains a level: below the cap, with experience reaching the next level.
pub open spec fn gains_level(p: PlayerProgress) -> bool {
    p.level < MAX_PLAYER_LEVEL && p.experience >= total_exp(((p.level + 1) as u32) as int)
}

/// `p` after levelling up while its experience allows.
pub open spec fn levelled_up(p: PlayerProgress, model: StepSpeedModel) -> PlayerProgress
    decreases MAX_PLAYER_LEVEL - p.level,
{
    if gains_level(p) {
        levelled_up(at_level(p, (p.level + 1) as i32, p.vocation_profile.gain_hp as int, p.vocation_profile.gain_mana as int, model), model)
    } else {
        p
    }
}

/// Levelling up from `p` stays within the integer types.
pub open spec fn level_up_fits(p: PlayerProgress, model: StepSpeedModel) -> bool
    decreases MAX_PLAYER_LEVEL - p.level,
{
    &&& (p.level < MAX_PLAYER_LEVEL ==> exp_poly_fits(((p.level + 1) as u32) as int, 100))
    &&& (gains_level(p) ==> {
        &&& step_fits(p, (p.level + 1) as i32, p.vocation_profile.gain_hp as int, p.vocation_profile.gain_mana as int)
        &&& level_up_fits(at_level(p, (p.level + 1) as i32, p.vocation_profile.gain_hp as int, p.vocation_profile.gain_mana as int, model), model)
    })
}

/// Whether `p` loses a level: above level 1, with experience below its level's.
pub open spec fn loses_level(p: PlayerProgress) -> bool {
    p.level > 1 && p.experience < total_exp((p.level as u32) as int)
}

/// `p` after levelling down while its experience falls short.
pub open spec fn levelled_down(p: PlayerProgress, model: StepSpeedModel) -> PlayerProgress
    decreases p.level,
{
    if loses_level(p) {
        levelled_down(at_level(p, (p.level - 1) as i32, -(p.vocation_profile.gain_hp as int), -(p.vocation_profile.gain_mana as int), model), model)
    } else {
        p
    }
}

/// Levelling down from `p` stays within the integer types.
pub open spec fn level_down_fits(p: PlayerProgress, model: StepSpeedModel) -> bool
    decreases p.level,
{
    &&& (p.level > 1 ==> exp_poly_fits((p.level as u32) as int, 100))
    &&& (loses_level(p) ==> {
        &&& step_fits(p, (p.level - 1) as i32, -(p.vocation_profile.gain_hp as int), -(p.vocation_profile.gain_mana as int))
        &&& level_down_fits(at_level(p, (p.level - 1) as i32, -(p.vocation_profile.gain_hp as int), -(p.vocation_profile.gain_mana as int), model), model)
    })
}

impl PlayerProgress {
    /// Experience from the current level to the next (0 below level 1).
    pub fn exp_to_next_level(&self) -> (r: u64)
        requires
            self.level >= 1 ==> exp_poly_fits(self.level as int, 100) && exp_poly_fits(self.level + 1, 100),
        ensures
            r == (if self.level < 1 { 0 } else {
                let d = total_exp(self.level + 1) - total_exp(self.level as int);
                if d < 0 { 0 } else { d }
            }),
    {
        experience_to_next_level(self.level)
    }

    /// Moves to level `l` (see `at_level`).
    /// Moves to level `l`, adding (`up`) or taking the vocation's gains.
    fn move_to_level(&mut self, l: i32, up: bool, model: StepSpeedModel)
        requires
            up ==> step_fits(*old(self), l, old(self).vocation_profile.gain_hp as int, old(self).vocation_profile.gain_mana as int),
            !up ==> step_fits(*old(self), l, -(old(self).vocation_profile.gain_hp as int), -(old(self).vocation_profile.gain_mana as int)),
        ensures
            up ==> *final(self) == at_level(*old(self), l, old(self).vocation_profile.gain_hp as int, old(self).vocation_profile.gain_mana as int, model),
            !up ==> *final(self) == at_level(*old(self), l, -(old(self).vocation_profile.gain_hp as int), -(old(self).vocation_profile.gain_mana as int), model),
    {
        let (max_hp, max_mana, cap) = self.vocation_profile.recalculate_vitals(l);
        self.level = l;
        self.max_health = max_hp;
        let gh = self.vocation_profile.gain_hp;
        let gm = self.vocation_profile.gain_mana;
        let h = if up { self.health + gh } else { self.health - gh };
        let h1 = if h < max_hp { h } else { max_hp };
        self.health = if h1 < 1 { 1 } else { h1 };
        self.max_mana = max_mana;
        let m = if up { self.mana + gm } else { self.mana - gm };
        let m1 = if m < max_mana { m } else { max_mana };
        self.mana = if m1 < 0 { 0 } else { m1 };
        self.capacity = cap;
        let sp = base_walk_speed(model, &self.vocation_profile, l, self.set_max_speed);
        self.speed = sp;
        self.base_speed = sp;
    }

    /// Adds experience (saturating) and levels up while it reaches the next level, up to
    /// level 2000: each level adds its health and mana gain to the current values, then
    /// keeps them within the new maxima. True when the level changed.
    pub fn add_experience(&mut self, amount: u64, model: StepSpeedModel) -> (r: bool)
        requires
            level_up_fits(PlayerProgress {
                experience: if old(self).experience + amount > u64::MAX { u64::MAX } else { (old(self).experience + amount) as u64 },
                ..*old(self)
            }, model),
        ensures
            *final(self) == levelled_up(PlayerProgress {
                experience: if old(self).experience + amount > u64::MAX { u64::MAX } else { (old(self).experience + amount) as u64 },
                ..*old(self)
            }, model),
            r == (final(self).level != old(self).level),
            final(self).level >= old(self).level,
            final(self).level >= MAX_PLAYER_LEVEL || final(self).experience < total_exp(((final(self).level + 1) as u32) as int),
    {
        let old_level = self.level;
        self.experience = self.experience.saturating_add(amount);
        loop
            invariant
                level_up_fits(*self, model),
                levelled_up(*self, model) == levelled_up(PlayerProgress {
                    experience: if old(self).experience + amount > u64::MAX { u64::MAX } else { (old(self).experience + amount) as u64 },
                    ..*old(self)
                }, model),
                self.level >= old_level,
                old_level == old(self).level,
            ensures
                *self == levelled_up(PlayerProgress {
                    experience: if old(self).experience + amount > u64::MAX { u64::MAX } else { (old(self).experience + amount) as u64 },
                    ..*old(self)
                }, model),
                self.level >= old_level,
                !gains_level(*self),
            decreases MAX_PLAYER_LEVEL - self.level,
        {
            if self.level >= MAX_PLAYER_LEVEL {
                break;
            }
            let next = total_experience_for_level((self.level + 1) as u32);
            if self.experience < next {
                break;
            }
            self.move_to_level(self.level + 1, true, model);
        }
        self.level != old_level
    }

    /// Removes experience (saturating at 0) and levels down while it falls short of the
    /// current level, down to level 1: each level lost takes its health and mana gain
    /// from the current values, then keeps them within the new maxima. True when the
    /// level changed.
    pub fn remove_experience(&mut self, amount: u64, model: StepSpeedModel) -> (r: bool)
        requires
            level_down_fits(PlayerProgress {
                experience: if old(self).experience >= amount { (old(self).experience - amount) as u64 } else { 0 },
                ..*old(self)
            }, model),
        ensures
            *final(self) == levelled_down(PlayerProgress {
                experience: if old(self).experience >= amount { (old(self).experience - amount) as u64 } else { 0 },
                ..*old(self)
            }, model),
            r == (final(self).level != old(self).level),
            final(self).level <= old(self).level,
            final(self).level <= 1 || final(self).experience >= total_exp((final(self).level as u32) as int),
    {
        let old_level = self.level;
        self.experience = self.experience.saturating_sub(amount);
        loop
            invariant
                level_down_fits(*self, model),
                levelled_down(*self, model) == levelled_down(PlayerProgress {
                    experience: if old(self).experience >= amount { (old(self).experience - amount) as u64 } else { 0 },
                    ..*old(self)
                }, model),
                self.level <= old_level,
                old_level == old(self).level,
            ensures
                *self == levelled_down(PlayerProgress {
                    experience: if old(self).experience >= amount { (old(self).experience - amount) as u64 } else { 0 },
                    ..*old(self)
                }, model),
                self.level <= old_level,
                !loses_level(*self),
            decreases self.level,
        {
            if self.level <= 1 {
                break;
            }
            let cur = total_experience_for_level(self.level as u32);
            if self.experience >= cur {
                break;
            }
            self.move_to_level(self.level - 1, false, model);
        }
        self.level != old_level
    }
}

} // verus!
