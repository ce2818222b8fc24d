//! Scene selection, director feel, music sections and bake-size presets.

use vstd::prelude::*;

verus! {

/// Which fragment shader draws the scene.
#[derive(Copy, Clone, PartialEq, Eq, Debug, Structural)]
pub enum Scene {
    Clouds,
    Cube,
}

impl Scene {
    /// The scene the cycle key switches to.
    pub open spec fn spec_next(self) -> Scene {
        match self {
            Scene::Clouds => Scene::Cube,
            Scene::Cube => Scene::Clouds,
        }
    }

    /// Cycle to the other scene.
    pub fn next(self) -> (r: Scene)
        ensures
            r == self.spec_next(),
            r != self,
    {
        match self {
            Scene::Clouds => Scene::Cube,
            Scene::Cube => Scene::Clouds,
        }
    }
}

/// Cycling the scene twice returns to where it started.
pub proof fn lemma_scene_cycle_returns(s: Scene)
    ensures
        s.spec_next().spec_next() == s,
        s.spec_next() != s,
{
}

/// Output resolution selector for a bake. `Window` reuses the current
/// window size; the others are fixed 16:9 presets.
#[derive(Copy, Clone, PartialEq, Eq, Debug, Structural)]
pub enum BakeSize {
    Window,
    P1080,
    P1440,
    P2160,
}

impl BakeSize {
    /// Output size of a selector, given the window size.
    pub open spec fn spec_dimensions(self, window: (u32, u32)) -> (u32, u32) {
        match self {
            BakeSize::Window => window,
            BakeSize::P1080 => (1920, 1080),
            BakeSize::P1440 => (2560, 1440),
            BakeSize::P2160 => (3840, 2160),
        }
    }

    /// Short human-readable name shown in the bake panel.
    pub fn label(self) -> (r: &'static str)
        ensures
            self == BakeSize::Window ==> r@ == "window"@,
            self == BakeSize::P1080 ==> r@ == "1080p"@,
            self == BakeSize::P1440 ==> r@ == "1440p"@,
            self == BakeSize::P2160 ==> r@ == "2160p"@,
    {
        match self {
            BakeSize::Window => "window",
            BakeSize::P1080 => "1080p",
            BakeSize::P1440 => "1440p",
            BakeSize::P2160 => "2160p",
        }
    }

    /// Returns (w, h) for the selector, falling back to `window` when
    /// `Window` is requested.
    pub fn dimensions(self, window: (u32, u32)) -> (r: (u32, u32))
        ensures
            r == self.spec_dimensions(window),
            self != BakeSize::Window ==> r.0 * 9 == r.1 * 16,
            self == BakeSize::Window ==> r == window,
            self == BakeSize::P1080 ==> r == (1920u32, 1080u32),
            self == BakeSize::P1440 ==> r == (2560u32, 1440u32),
            self == BakeSize::P2160 ==> r == (3840u32, 2160u32),
    {
        match self {
            BakeSize::Window => window,
            BakeSize::P1080 => (1920, 1080),
            BakeSize::P1440 => (2560, 1440),
            BakeSize::P2160 => (3840, 2160),
        }
    }
}

/// How strongly the music director modulates the picture.
#[derive(Copy, Clone, PartialEq, Eq, Debug, Structural)]
pub enum DirectorFeel {
    Off,
    Subtle,
    Cinematic,
    Theatrical,
}

impl DirectorFeel {
    /// Multiplier applied where the director's outputs are consumed, in
    /// tenths: off 0, subtle 0.5, cinematic 1.0, theatrical 1.6.
    pub open spec fn spec_amount_tenths(self) -> u32 {
        match self {
            DirectorFeel::Off => 0,
            DirectorFeel::Subtle => 5,
            DirectorFeel::Cinematic => 10,
            DirectorFeel::Theatrical => 16,
        }
    }

    pub fn amount_tenths(self) -> (r: u32)
        ensures
            r == self.spec_amount_tenths(),
            r <= 16,
            r == 0 <==> self == DirectorFeel::Off,
    {
        match self {
            DirectorFeel::Off => 0,
            DirectorFeel::Subtle => 5,
            DirectorFeel::Cinematic => 10,
            DirectorFeel::Theatrical => 16,
        }
    }
}

/// Feels are ordered by strength: each one modulates more than the last.
pub proof fn lemma_feel_strength_increases()
    ensures
        DirectorFeel::Off.spec_amount_tenths() < DirectorFeel::Subtle.spec_amount_tenths(),
        DirectorFeel::Subtle.spec_amount_tenths() < DirectorFeel::Cinematic.spec_amount_tenths(),
        DirectorFeel::Cinematic.spec_amount_tenths() < DirectorFeel::Theatrical.spec_amount_tenths(),
{
}

/// The palette that follows `index` when palettes rotate through `count`
/// presets.
pub fn next_palette_index(index: usize, count: usize) -> (r: usize)
    requires
        count > 0,
        index < usize::MAX,
    ensures
        r == (index + 1) % (count as int),
        r < count,
{
    (index + 1) % count
}

/// Rotating `k` times from the first palette lands on palette `k mod count`,
/// so every preset comes round in turn.
pub open spec fn spec_rotate(count: nat, k: nat) -> nat
    decreases k,
{
    if k == 0 {
        0
    } else {
        (spec_rotate(count, (k - 1) as nat) + 1) % count
    }
}

pub proof fn lemma_rotation_visits_all(count: nat, k: nat)
    requires
        count > 0,
    ensures
        spec_rotate(count, k) == k % count,
    decreases k,
{
    if k > 0 {
        lemma_rotation_visits_all(count, (k - 1) as nat);
        let x = (k - 1) as int;
        let m = count as int;
        vstd::arithmetic::div_mod::lemma_fundamental_div_mod(x, m);
        vstd::arithmetic::div_mod::lemma_mod_multiples_vanish(x / m, x % m + 1, m);
        assert(m * (x / m) + (x % m + 1) == x + 1);
        assert((x % m + 1) % m == (x + 1) % m);
    } else {
        vstd::arithmetic::div_mod::lemma_small_mod(0, count);
    }
}

/// Coarse energy section of the music, with hysteresis between them.
#[derive(Copy, Clone, PartialEq, Eq, Debug, Structural)]
pub enum Section {
    Lull,
    Cruise,
    Peak,
}

impl Section {
    /// Energy thresholds (low, high) that apply while in this section, in
    /// thousandths of full-scale RMS.
    pub open spec fn spec_thresholds_milli(self) -> (u32, u32) {
        match self {
            Section::Lull => (100, 180),
            Section::Cruise => (70, 320),
            Section::Peak => (240, 400),
        }
    }

    /// Thresholds in thousandths: staying in a lull needs less than 0.18 to
    /// leave it, a cruise drops below 0.07 or climbs past 0.32, and a peak
    /// must fall below 0.24 to end.
    pub fn thresholds_milli(self) -> (r: (u32, u32))
        ensures
            r == self.spec_thresholds_milli(),
            r.0 < r.1,
    {
        match self {
            Section::Lull => (100, 180),
            Section::Cruise => (70, 320),
            Section::Peak => (240, 400),
        }
    }

    /// The section the energy points to: `reaches_high` is "the louder of the
    /// long averages is at or above the high threshold", `reaches_low` is
    /// "the quieter one is at or below the low threshold".
    pub open spec fn spec_classify(reaches_high: bool, reaches_low: bool) -> Section {
        if reaches_high {
            Section::Peak
        } else if reaches_low {
            Section::Lull
        } else {
            Section::Cruise
        }
    }

    pub fn classify(reaches_high: bool, reaches_low: bool) -> (r: Section)
        ensures
            r == Section::spec_classify(reaches_high, reaches_low),
            reaches_high ==> r == Section::Peak,
            !reaches_high && reaches_low ==> r == Section::Lull,
            !reaches_high && !reaches_low ==> r == Section::Cruise,
    {
        if reaches_high {
            Section::Peak
        } else if reaches_low {
            Section::Lull
        } else {
            Section::Cruise
        }
    }

    /// The section after one director tick and whether it changed: the
    /// candidate is taken only when it differs and the current section has
    /// lasted long enough (`settled`).
    pub open spec fn spec_settle(self, candidate: Section, settled: bool) -> (Section, bool) {
        if candidate != self && settled {
            (candidate, true)
        } else {
            (self, false)
        }
    }

    pub fn settle(self, candidate: Section, settled: bool) -> (r: (Section, bool))
        ensures
            r == self.spec_settle(candidate, settled),
            r.1 <==> r.0 != self,
            r.1 ==> settled,
            candidate != self && settled ==> r == (candidate, true),
            candidate == self || !settled ==> r == (self, false),
    {
        if candidate != self && settled {
            (candidate, true)
        } else {
            (self, false)
        }
    }
}

/// Hysteresis of the section thresholds: a peak is entered from a cruise
/// only at a higher energy than the one at which it is left, and a lull is
/// entered from a cruise at a lower energy than the one needed to leave it.
pub proof fn lemma_section_hysteresis()
    ensures
        Section::Peak.spec_thresholds_milli().0 < Section::Cruise.spec_thresholds_milli().1,
        Section::Cruise.spec_thresholds_milli().0 < Section::Lull.spec_thresholds_milli().1,
        forall|s: Section| #[trigger] s.spec_thresholds_milli().0 < s.spec_thresholds_milli().1,
{
}

/// Once settled, a tick moves straight to whichever section the energy
/// points to, even from a lull to a peak or back, and reports the change;
/// a candidate equal to the current section changes nothing.
pub proof fn lemma_settle_moves_to_candidate(s: Section, candidate: Section, settled: bool)
    ensures
        candidate != s && settled ==> s.spec_settle(candidate, settled) == (candidate, true),
        candidate == s ==> s.spec_settle(candidate, settled) == (s, false),
        !settled ==> s.spec_settle(candidate, settled) == (s, false),
        Section::Lull.spec_settle(Section::Peak, true) == (Section::Peak, true),
        Section::Peak.spec_settle(Section::Lull, true) == (Section::Lull, true),
{
}

/// The section a tick ends in is the one the thresholds classify, once
/// settled: high energy always leads to a peak, low energy to a lull.
pub proof fn lemma_settled_section_follows_energy(s: Section, high: bool, low: bool)
    ensures
        high ==> s.spec_settle(Section::spec_classify(high, low), true).0 == Section::Peak,
        !high && low ==> s.spec_settle(Section::spec_classify(high, low), true).0 == Section::Lull,
        !high && !low ==> s.spec_settle(Section::spec_classify(high, low), true).0 == Section::Cruise,
{
}

/// The Window selector passes the window size through unchanged, whatever
/// it is, and the presets ignore it.
pub proof fn lemma_window_size_passes_through(window: (u32, u32))
    ensures
        BakeSize::Window.spec_dimensions(window) == window,
        BakeSize::P1080.spec_dimensions(window) == (1920u32, 1080u32),
        BakeSize::P1440.spec_dimensions(window) == (2560u32, 1440u32),
        BakeSize::P2160.spec_dimensions(window) == (3840u32, 2160u32),
{
}

/// A section never changes on a tick before it has settled, whatever the
/// energy says.
pub proof fn lemma_section_holds_until_settled(s: Section, high: bool, low: bool)
    ensures
        s.spec_settle(Section::spec_classify(high, low), false) == (s, false),
{
}

} // verus!
