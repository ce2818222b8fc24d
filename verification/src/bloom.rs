//! The bloom chain: per-level target sizes and the order of the extract,
//! downsample and upsample passes over them.

use vstd::prelude::*;
use vstd::arithmetic::power2::pow2;

verus! {

/// Size of one side of bloom level `level`: the full size divided by
/// `2^(level + 1)`, never below one pixel.
pub open spec fn spec_level_side(full: u32, level: nat) -> u32 {
    let d = full as nat / pow2(level + 1);
    if d < 1 { 1 } else { d as u32 }
}

/// (width, height) of bloom level `level` for a `w` x `h` scene target.
pub fn bloom_level_size(w: u32, h: u32, level: u32) -> (r: (u32, u32))
    requires
        level < 31,
    ensures
        r == (spec_level_side(w, level as nat), spec_level_side(h, level as nat)),
        r.0 >= 1,
        r.1 >= 1,
{
    let shift: u32 = level + 1;
    proof {
        vstd::bits::lemma_u32_pow2_no_overflow(shift as nat);
        vstd::bits::lemma_u32_shl_is_mul(1u32, shift);
    }
    let scale: u32 = 1u32 << shift;
    assert(scale as nat == pow2(shift as nat));
    let lw0 = w / scale;
    let lh0 = h / scale;
    let lw = if lw0 < 1 { 1 } else { lw0 };
    let lh = if lh0 < 1 { 1 } else { lh0 };
    (lw, lh)
}

/// Each bloom level is at least one pixel and no larger than the level
/// before it.
pub proof fn lemma_bloom_levels_shrink(full: u32, level: nat)
    ensures
        spec_level_side(full, level + 1) <= spec_level_side(full, level),
        spec_level_side(full, level) >= 1,
{
    vstd::arithmetic::power2::lemma_pow2_strictly_increases(level + 1, level + 2);
    vstd::arithmetic::power2::lemma_pow2_pos(level + 1);
    vstd::arithmetic::div_mod::lemma_div_is_ordered_by_denominator(
        full as int,
        pow2(level + 1) as int,
        pow2(level + 2) as int,
    );
    assert(full as nat / pow2(level + 1) <= full as nat) by {
        vstd::arithmetic::div_mod::lemma_div_is_ordered_by_denominator(
            full as int,
            1,
            pow2(level + 1) as int,
        );
    }
}

/// A bloom level's side is the largest size that fits `2^(level + 1)` times
/// into the full side, and exactly one pixel when the full side is smaller
/// than that factor.
pub proof fn lemma_level_side_divides(full: u32, level: nat)
    ensures
        full as nat >= pow2(level + 1) ==> spec_level_side(full, level) * pow2(level + 1) <= full,
        full as nat >= pow2(level + 1) ==> full < (spec_level_side(full, level) + 1) * pow2(level + 1),
        (full as nat) < pow2(level + 1) ==> spec_level_side(full, level) == 1,
{
    let p = pow2(level + 1) as int;
    vstd::arithmetic::power2::lemma_pow2_pos(level + 1);
    vstd::arithmetic::div_mod::lemma_fundamental_div_mod(full as int, p);
    vstd::arithmetic::div_mod::lemma_mod_bound(full as int, p);
    if (full as nat) < pow2(level + 1) {
        vstd::arithmetic::div_mod::lemma_basic_div(full as int, p);
    } else {
        vstd::arithmetic::div_mod::lemma_div_is_ordered(p, full as int, p);
        vstd::arithmetic::div_mod::lemma_div_by_self(p);
        let f = full as int;
        let d = f / p;
        assert(d >= 1);
        assert(d <= f) by {
            vstd::arithmetic::div_mod::lemma_div_is_ordered_by_denominator(f, 1, p);
        }
        assert(d * p <= f && f < (d + 1) * p) by (nonlinear_arith)
            requires
                f == p * d + f % p,
                0 <= f % p < p,
        ;
    }
}

/// What a bloom pass does.
#[derive(Copy, Clone, PartialEq, Eq, Debug, Structural)]
pub enum BloomStage {
    /// Bright-pass from the HDR scene into level 0.
    Extract,
    /// Level `target - 1` filtered down into level `target`.
    Downsample,
    /// Level `target + 1` added back into level `target`.
    Upsample,
}

/// One render pass of the chain: it draws into bloom view `target` while
/// sampling through bind group `source_group`.
#[derive(Copy, Clone, PartialEq, Eq, Debug, Structural)]
pub struct BloomPass {
    pub stage: BloomStage,
    pub target: usize,
    pub source_group: usize,
}

/// The texture a bind group samples: group 0 reads the HDR scene (`None`),
/// group `g >= 1` reads bloom view `g - 1`.
pub open spec fn group_reads(g: usize) -> Option<usize> {
    if g == 0 {
        None
    } else {
        Some((g - 1) as usize)
    }
}

/// Pass `j` of the chain over `levels` views: pass 0 extracts into level 0,
/// passes `1 .. levels` downsample into level `j`, and the remaining
/// `levels - 1` passes upsample back from the smallest level to level 0.
pub open spec fn spec_pass_at(levels: nat, j: int) -> BloomPass {
    if j == 0 {
        BloomPass { stage: BloomStage::Extract, target: 0, source_group: 0 }
    } else if j < levels {
        BloomPass { stage: BloomStage::Downsample, target: j as usize, source_group: j as usize }
    } else {
        BloomPass {
            stage: BloomStage::Upsample,
            target: (2 * levels - 2 - j) as usize,
            source_group: (2 * levels - j) as usize,
        }
    }
}

/// The pass order for `levels` bloom views.
pub open spec fn spec_bloom_passes(levels: nat) -> Seq<BloomPass> {
    Seq::new((2 * levels - 1) as nat, |j: int| spec_pass_at(levels, j))
}

/// The passes that render the bloom chain over `levels` views; the scene
/// bind group and one bind group per view make `levels + 1` groups.
pub fn bloom_passes(levels: usize) -> (r: Vec<BloomPass>)
    requires
        levels >= 1,
        levels < usize::MAX,
    ensures
        r@ == spec_bloom_passes(levels as nat),
        r@.len() == 2 * levels - 1,
{
    let mut out: Vec<BloomPass> = Vec::new();
    out.push(BloomPass { stage: BloomStage::Extract, target: 0, source_group: 0 });
    let mut i: usize = 1;
    while i < levels
        invariant
            1 <= i <= levels,
            out@.len() == i,
            forall|k: int| 0 <= k < i ==> #[trigger] out@[k] == spec_pass_at(levels as nat, k),
        decreases levels - i,
    {
        out.push(BloomPass { stage: BloomStage::Downsample, target: i, source_group: i });
        i = i + 1;
    }
    let mut j: usize = levels;
    while j > 1
        invariant
            1 <= j <= levels,
            levels < usize::MAX,
            out@.len() == levels + (levels - j),
            forall|k: int|
                0 <= k < out@.len() ==> #[trigger] out@[k] == spec_pass_at(levels as nat, k),
        decreases j,
    {
        let lv = j - 1;
        out.push(BloomPass { stage: BloomStage::Upsample, target: lv - 1, source_group: lv + 1 });
        j = j - 1;
    }
    assert(out@ =~= spec_bloom_passes(levels as nat));
    out
}

/// The bloom schedule is hazard-free and complete: no pass samples the
/// view it draws into, every bind group used exists, every view a pass
/// samples was drawn by an earlier pass, and the chain ends on level 0,
/// which the composite reads.
pub proof fn lemma_bloom_schedule_sound(levels: nat)
    requires
        1 <= levels < usize::MAX,
    ensures
        forall|j: int|
            0 <= j < spec_bloom_passes(levels).len() ==> {
                let p = #[trigger] spec_bloom_passes(levels)[j];
                &&& group_reads(p.source_group) != Some(p.target)
                &&& p.source_group <= levels
                &&& p.target < levels
                &&& (group_reads(p.source_group) matches Some(l) ==> exists|i: int|
                    0 <= i < j && spec_bloom_passes(levels)[i].target == l)
            },
        spec_bloom_passes(levels).last().target == 0,
{
    let ps = spec_bloom_passes(levels);
    assert forall|j: int| 0 <= j < ps.len() implies {
        let p = #[trigger] ps[j];
        &&& group_reads(p.source_group) != Some(p.target)
        &&& p.source_group <= levels
        &&& p.target < levels
        &&& (group_reads(p.source_group) matches Some(l) ==> exists|i: int|
            0 <= i < j && ps[i].target == l)
    } by {
        if j == 0 {
        } else if j < levels {
            // a downsample into level j reads level j - 1, drawn by pass j - 1
            assert(ps[j - 1].target == j - 1);
        } else {
            // an upsample reads level 2 * levels - 1 - j, drawn by the
            // downsample (or extract) pass of the same index
            let l = 2 * levels - 1 - j;
            assert(ps[l].target == l);
        }
    }
    assert(ps.last() == ps[2 * levels - 2]);
}

} // verus!
