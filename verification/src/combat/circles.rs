//! Circle-ring disc offsets for radius-based area effects.
//!
//! Rings 0 to 7 hold 1, 4, 4, 12, 16, 20, 16 and 28 tiles (101 in all). A spell of
//! radius `R` hits every tile of rings `0..=R`; radii above 7 are clamped to 7.

use vstd::prelude::*;

verus! {

/// Highest ring index of the disc model.
pub const MAX_DISC_RADIUS: usize = 7;

/// The `(dx, dy)` offsets of ring `r` (`r >= 7` gives ring 7), relative to the centre.
pub open spec fn spec_disc_ring(r: nat) -> Seq<(i32, i32)> {
    if r == 0 {
        seq![(0i32, 0i32)]
    } else if r == 1 {
        seq![(0i32, -1i32), (-1i32, 0i32), (1i32, 0i32), (0i32, 1i32)]
    } else if r == 2 {
        seq![(-1i32, -1i32), (1i32, -1i32), (-1i32, 1i32), (1i32, 1i32)]
    } else if r == 3 {
        seq![(-1i32, -2i32), (0i32, -2i32), (1i32, -2i32), (-2i32, -1i32), (2i32, -1i32), (-2i32, 0i32), (2i32, 0i32), (-2i32, 1i32), (2i32, 1i32), (-1i32, 2i32), (0i32, 2i32), (1i32, 2i32)]
    } else if r == 4 {
        seq![(-1i32, -3i32), (0i32, -3i32), (1i32, -3i32), (-2i32, -2i32), (2i32, -2i32), (-3i32, -1i32), (3i32, -1i32), (-3i32, 0i32), (3i32, 0i32), (-3i32, 1i32), (3i32, 1i32), (-2i32, 2i32), (2i32, 2i32), (-1i32, 3i32), (0i32, 3i32), (1i32, 3i32)]
    } else if r == 5 {
        seq![(-1i32, -4i32), (0i32, -4i32), (1i32, -4i32), (-2i32, -3i32), (2i32, -3i32), (-3i32, -2i32), (3i32, -2i32), (-4i32, -1i32), (4i32, -1i32), (-4i32, 0i32), (4i32, 0i32), (-4i32, 1i32), (4i32, 1i32), (-3i32, 2i32), (3i32, 2i32), (-2i32, 3i32), (2i32, 3i32), (-1i32, 4i32), (0i32, 4i32), (1i32, 4i32)]
    } else if r == 6 {
        seq![(0i32, -5i32), (-2i32, -4i32), (2i32, -4i32), (-3i32, -3i32), (3i32, -3i32), (-4i32, -2i32), (4i32, -2i32), (-5i32, 0i32), (5i32, 0i32), (-4i32, 2i32), (4i32, 2i32), (-3i32, 3i32), (3i32, 3i32), (-2i32, 4i32), (2i32, 4i32), (0i32, 5i32)]
    } else {
        seq![(0i32, -6i32), (-2i32, -5i32), (-1i32, -5i32), (1i32, -5i32), (2i32, -5i32), (-3i32, -4i32), (3i32, -4i32), (-4i32, -3i32), (4i32, -3i32), (-5i32, -2i32), (5i32, -2i32), (-5i32, -1i32), (5i32, -1i32), (-6i32, 0i32), (6i32, 0i32), (-5i32, 1i32), (5i32, 1i32), (-5i32, 2i32), (5i32, 2i32), (-4i32, 3i32), (4i32, 3i32), (-3i32, 4i32), (3i32, 4i32), (-2i32, 5i32), (-1i32, 5i32), (1i32, 5i32), (2i32, 5i32), (0i32, 6i32)]
    }
}

/// Tiles per ring.
pub open spec fn spec_ring_len(r: nat) -> nat {
    if r == 0 {
        1
    } else if r == 1 {
        4
    } else if r == 2 {
        4
    } else if r == 3 {
        12
    } else if r == 4 {
        16
    } else if r == 5 {
        20
    } else if r == 6 {
        16
    } else {
        28
    }
}

/// Rings `0..=r` concatenated in ring order.
pub open spec fn spec_disc(r: nat) -> Seq<(i32, i32)>
    decreases r,
{
    if r == 0 {
        spec_disc_ring(0)
    } else {
        spec_disc((r - 1) as nat) + spec_disc_ring(r)
    }
}

/// Total tiles of rings `0..=r`.
pub open spec fn spec_disc_count(r: nat) -> nat
    decreases r,
{
    if r == 0 {
        spec_ring_len(0)
    } else {
        spec_disc_count((r - 1) as nat) + spec_ring_len(r)
    }
}

pub open spec fn clamp_radius(radius: usize) -> nat {
    if radius > MAX_DISC_RADIUS { MAX_DISC_RADIUS as nat } else { radius as nat }
}

/// The offsets of one ring (`r > 7` gives ring 7).
pub fn disc_ring(r: usize) -> (v: Vec<(i32, i32)>)
    ensures
        v@ == spec_disc_ring(r as nat),
{
    let v = match r {
        0 => vec![(0i32, 0i32)],
        1 => vec![(0i32, -1i32), (-1i32, 0i32), (1i32, 0i32), (0i32, 1i32)],
        2 => vec![(-1i32, -1i32), (1i32, -1i32), (-1i32, 1i32), (1i32, 1i32)],
        3 => vec![(-1i32, -2i32), (0i32, -2i32), (1i32, -2i32), (-2i32, -1i32), (2i32, -1i32), (-2i32, 0i32), (2i32, 0i32), (-2i32, 1i32), (2i32, 1i32), (-1i32, 2i32), (0i32, 2i32), (1i32, 2i32)],
        4 => vec![(-1i32, -3i32), (0i32, -3i32), (1i32, -3i32), (-2i32, -2i32), (2i32, -2i32), (-3i32, -1i32), (3i32, -1i32), (-3i32, 0i32), (3i32, 0i32), (-3i32, 1i32), (3i32, 1i32), (-2i32, 2i32), (2i32, 2i32), (-1i32, 3i32), (0i32, 3i32), (1i32, 3i32)],
        5 => vec![(-1i32, -4i32), (0i32, -4i32), (1i32, -4i32), (-2i32, -3i32), (2i32, -3i32), (-3i32, -2i32), (3i32, -2i32), (-4i32, -1i32), (4i32, -1i32), (-4i32, 0i32), (4i32, 0i32), (-4i32, 1i32), (4i32, 1i32), (-3i32, 2i32), (3i32, 2i32), (-2i32, 3i32), (2i32, 3i32), (-1i32, 4i32), (0i32, 4i32), (1i32, 4i32)],
        6 => vec![(0i32, -5i32), (-2i32, -4i32), (2i32, -4i32), (-3i32, -3i32), (3i32, -3i32), (-4i32, -2i32), (4i32, -2i32), (-5i32, 0i32), (5i32, 0i32), (-4i32, 2i32), (4i32, 2i32), (-3i32, 3i32), (3i32, 3i32), (-2i32, 4i32), (2i32, 4i32), (0i32, 5i32)],
        _ => vec![(0i32, -6i32), (-2i32, -5i32), (-1i32, -5i32), (1i32, -5i32), (2i32, -5i32), (-3i32, -4i32), (3i32, -4i32), (-4i32, -3i32), (4i32, -3i32), (-5i32, -2i32), (5i32, -2i32), (-5i32, -1i32), (5i32, -1i32), (-6i32, 0i32), (6i32, 0i32), (-5i32, 1i32), (5i32, 1i32), (-5i32, 2i32), (5i32, 2i32), (-4i32, 3i32), (4i32, 3i32), (-3i32, 4i32), (3i32, 4i32), (-2i32, 5i32), (-1i32, 5i32), (1i32, 5i32), (2i32, 5i32), (0i32, 6i32)],
    };
    proof {
        assert(v@ =~= spec_disc_ring(r as nat));
    }
    v
}

/// Every offset of rings `0..=min(radius, 7)`, ring by ring.
pub fn disc_offsets(radius: usize) -> (v: Vec<(i32, i32)>)
    ensures
        v@ == spec_disc(clamp_radius(radius)),
{
    let r = if radius > MAX_DISC_RADIUS { MAX_DISC_RADIUS } else { radius };
    let mut out = disc_ring(0);
    let mut i: usize = 1;
    while i <= r
        invariant
            1 <= i <= r + 1,
            r <= 7,
            r == clamp_radius(radius),
            out@ == spec_disc((i - 1) as nat),
        decreases r + 1 - i,
    {
        let mut ring = disc_ring(i);
        out.append(&mut ring);
        i = i + 1;
    }
    out
}

/// Number of tiles that [`disc_offsets`] returns for `radius`.
pub fn disc_tile_count(radius: usize) -> (n: usize)
    ensures
        n == spec_disc_count(clamp_radius(radius)),
{
    let r = if radius > MAX_DISC_RADIUS { MAX_DISC_RADIUS } else { radius };
    let lens: [usize; 8] = [1, 4, 4, 12, 16, 20, 16, 28];
    let mut total: usize = 0;
    let mut i: usize = 0;
    while i <= r
        invariant
            0 <= i <= r + 1,
            r <= 7,
            r == clamp_radius(radius),
            lens@ == seq![1usize, 4, 4, 12, 16, 20, 16, 28],
            i == 0 ==> total == 0,
            i > 0 ==> total == spec_disc_count((i - 1) as nat),
            total <= 101,
        decreases r + 1 - i,
    {
        proof {
            reveal_with_fuel(spec_disc_count, 9);
        }
        total = total + lens[i];
        i = i + 1;
    }
    total
}

/// Each ring holds as many offsets as its tile count.
pub proof fn lemma_ring_len(r: nat)
    ensures
        spec_disc_ring(r).len() == spec_ring_len(r),
{
}

/// The tile count of a radius is the length of its offset list.
pub proof fn lemma_disc_count_matches_offsets(r: nat)
    ensures
        spec_disc(r).len() == spec_disc_count(r),
    decreases r,
{
    lemma_ring_len(r);
    if r > 0 {
        lemma_disc_count_matches_offsets((r - 1) as nat);
    }
}

} // verus!
