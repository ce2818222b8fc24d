//! Integer side of the offline track analysis: beat-grid hop indices,
//! phrase marks taken every few beats, and the clamping of frequency bands
//! to valid FFT bins.

use vstd::prelude::*;

verus! {

/// Hop indices `start, start + period, start + 2 * period, ...` that lie
/// below `end`.
pub open spec fn spec_grid(start: int, period: int, end: int) -> Seq<usize>
    decreases if start < end { end - start } else { 0 },
{
    if start >= end || period <= 0 {
        Seq::empty()
    } else {
        seq![start as usize] + spec_grid(start + period, period, end)
    }
}

/// Element `k` of the grid is `start + k * period` and lies below `end`.
proof fn lemma_grid_at(start: int, period: int, end: int, k: int)
    requires
        0 <= start,
        period > 0,
        end <= usize::MAX,
        0 <= k < spec_grid(start, period, end).len(),
    ensures
        spec_grid(start, period, end)[k] as int == start + k * period,
        start + k * period < end,
    decreases k,
{
    let rest = spec_grid(start + period, period, end);
    if k > 0 {
        lemma_grid_at(start + period, period, end, k - 1);
        assert(spec_grid(start, period, end)[k] == rest[k - 1]);
        assert(start + period + (k - 1) * period == start + k * period) by (nonlinear_arith);
    }
}

/// The grid ends at the first multiple of `period` past `end`.
proof fn lemma_grid_len(start: int, period: int, end: int)
    requires
        period > 0,
    ensures
        start + spec_grid(start, period, end).len() * period >= end,
    decreases if start < end { end - start } else { 0 },
{
    if start >= end {
        assert(spec_grid(start, period, end) =~= Seq::<usize>::empty());
    } else {
        lemma_grid_len(start + period, period, end);
        let rest = spec_grid(start + period, period, end);
        assert(start + period + rest.len() * period == start + (rest.len() + 1) * period)
            by (nonlinear_arith);
    }
}

/// Every element of the grid is `start + k * period` and lies in
/// `[start, end)`, and the grid stops at the first such value past the end.
pub proof fn lemma_grid_elements(start: int, period: int, end: int)
    requires
        0 <= start,
        period > 0,
        end <= usize::MAX,
    ensures
        forall|k: int|
            0 <= k < spec_grid(start, period, end).len() ==> {
                &&& #[trigger] spec_grid(start, period, end)[k] as int == start + k * period
                &&& start + k * period < end
            },
        start + spec_grid(start, period, end).len() * period >= end,
{
    assert forall|k: int| 0 <= k < spec_grid(start, period, end).len() implies {
        &&& #[trigger] spec_grid(start, period, end)[k] as int == start + k * period
        &&& start + k * period < end
    } by {
        lemma_grid_at(start, period, end, k);
    }
    lemma_grid_len(start, period, end);
}

/// Beat positions in hops: starting at `phase`, one every `period` hops,
/// up to (excluding) `n_hops`.
pub fn beat_grid_hops(phase: usize, period: usize, n_hops: usize) -> (r: Vec<usize>)
    requires
        period > 0,
    ensures
        r@ == spec_grid(phase as int, period as int, n_hops as int),
{
    let mut out: Vec<usize> = Vec::new();
    let mut i = phase;
    while i < n_hops
        invariant
            period > 0,
            out@ + spec_grid(i as int, period as int, n_hops as int) == spec_grid(
                phase as int,
                period as int,
                n_hops as int,
            ),
        decreases n_hops - i,
    {
        let ghost before = out@;
        out.push(i);
        assert(spec_grid(i as int, period as int, n_hops as int) == seq![i] + spec_grid(
            i + period,
            period as int,
            n_hops as int,
        ));
        assert(before + spec_grid(i as int, period as int, n_hops as int) =~= out@ + spec_grid(
            i + period,
            period as int,
            n_hops as int,
        ));
        if period >= n_hops - i {
            assert(spec_grid(i + period, period as int, n_hops as int) =~= Seq::<usize>::empty());
            assert(spec_grid(n_hops as int, period as int, n_hops as int) =~= Seq::<usize>::empty());
            i = n_hops;
        } else {
            i = i + period;
        }
    }
    assert(spec_grid(i as int, period as int, n_hops as int) =~= Seq::<usize>::empty());
    assert(out@ =~= out@ + Seq::<usize>::empty());
    out
}

/// The items of `s` at `start, start + step, start + 2 * step, ...`.
pub open spec fn spec_strided<T>(s: Seq<T>, start: int, step: int) -> Seq<T>
    decreases if start < s.len() { s.len() - start } else { 0 },
{
    if start >= s.len() || step <= 0 || start < 0 {
        Seq::empty()
    } else {
        seq![s[start]] + spec_strided(s, start + step, step)
    }
}

/// The k-th item of a strided selection is item `start + k * step` of the
/// source, and the selection covers the whole source.
pub proof fn lemma_strided_elements<T>(s: Seq<T>, start: int, step: int)
    requires
        0 <= start,
        step > 0,
    ensures
        forall|k: int|
            0 <= k < spec_strided(s, start, step).len() ==> {
                &&& #[trigger] spec_strided(s, start, step)[k] == s[start + k * step]
                &&& start + k * step < s.len()
            },
        start + spec_strided(s, start, step).len() * step >= s.len(),
    decreases if start < s.len() { s.len() - start } else { 0 },
{
    if start >= s.len() {
        assert(spec_strided(s, start, step) =~= Seq::<T>::empty());
    } else {
        lemma_strided_elements(s, start + step, step);
        let g = spec_strided(s, start, step);
        let rest = spec_strided(s, start + step, step);
        assert forall|k: int| 0 <= k < g.len() implies {
            &&& #[trigger] g[k] == s[start + k * step]
            &&& start + k * step < s.len()
        } by {
            if k > 0 {
                assert(g[k] == rest[k - 1]);
                assert(start + step + (k - 1) * step == start + k * step) by (nonlinear_arith);
            }
        }
        assert(start + step + rest.len() * step == start + g.len() * step) by (nonlinear_arith)
            requires
                g.len() == rest.len() + 1,
        ;
    }
}

/// Every `step`-th item of `v`, starting with the first; phrase marks are
/// every sixteenth beat (four bars of four beats).
pub fn every_nth<T: Copy>(v: &[T], step: usize) -> (r: Vec<T>)
    requires
        step > 0,
    ensures
        r@ == spec_strided(v@, 0, step as int),
{
    let n = v.len();
    let mut out: Vec<T> = Vec::new();
    let mut i: usize = 0;
    while i < n
        invariant
            step > 0,
            n == v@.len(),
            out@ + spec_strided(v@, i as int, step as int) == spec_strided(v@, 0, step as int),
        decreases n - i,
    {
        let ghost before = out@;
        out.push(v[i]);
        assert(spec_strided(v@, i as int, step as int) == seq![v@[i as int]] + spec_strided(
            v@,
            i + step,
            step as int,
        ));
        assert(before + spec_strided(v@, i as int, step as int) =~= out@ + spec_strided(
            v@,
            i + step,
            step as int,
        ));
        if step >= n - i {
            assert(spec_strided(v@, i + step, step as int) =~= Seq::<T>::empty());
            assert(spec_strided(v@, n as int, step as int) =~= Seq::<T>::empty());
            i = n;
        } else {
            i = i + step;
        }
    }
    assert(spec_strided(v@, i as int, step as int) =~= Seq::<T>::empty());
    assert(out@ =~= out@ + Seq::<T>::empty());
    out
}

/// FFT bin range `[lo, hi)` of a band whose edges fall in raw bins `lo_raw`
/// and `hi_raw`, in a spectrum of `half` usable bins: the DC bin is skipped,
/// and the band always keeps at least one bin below the Nyquist bin.
pub open spec fn spec_bin_range(lo_raw: usize, hi_raw: usize, half: usize) -> (usize, usize) {
    let lo0 = if lo_raw < 1 { 1 } else { lo_raw };
    let lo = if lo0 < half - 2 { lo0 } else { (half - 2) as usize };
    let hi0 = if hi_raw < lo + 1 { (lo + 1) as usize } else { hi_raw };
    let hi = if hi0 < half - 1 { hi0 } else { (half - 1) as usize };
    (lo, hi)
}

/// A raw band that already lies inside the usable bins is kept as it is:
/// clamping only moves edges that fall on the DC bin, past the Nyquist bin,
/// or that would leave the band empty.
pub proof fn lemma_bin_range_keeps_valid_band(lo_raw: usize, hi_raw: usize, half: usize)
    requires
        half >= 3,
    ensures
        1 <= lo_raw <= half - 2 ==> spec_bin_range(lo_raw, hi_raw, half).0 == lo_raw,
        1 <= lo_raw <= half - 2 && lo_raw < hi_raw <= half - 1 ==> spec_bin_range(lo_raw, hi_raw, half)
            == (lo_raw, hi_raw),
        lo_raw == 0 ==> spec_bin_range(lo_raw, hi_raw, half).0 == 1,
        lo_raw > half - 2 ==> spec_bin_range(lo_raw, hi_raw, half).0 == half - 2,
        hi_raw >= half ==> spec_bin_range(lo_raw, hi_raw, half).1 == half - 1,
{
}

pub fn bin_range(lo_raw: usize, hi_raw: usize, half: usize) -> (r: (usize, usize))
    requires
        half >= 2,
    ensures
        r == spec_bin_range(lo_raw, hi_raw, half),
        r.0 < r.1,
        r.1 < half,
        half >= 3 ==> 1 <= r.0,
{
    let lo0 = if lo_raw < 1 { 1 } else { lo_raw };
    let lo = if lo0 < half - 2 { lo0 } else { half - 2 };
    let hi0 = if hi_raw < lo + 1 { lo + 1 } else { hi_raw };
    let hi = if hi0 < half - 1 { hi0 } else { half - 1 };
    (lo, hi)
}

} // verus!
