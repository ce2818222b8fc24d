use shader_experiment::hash::hash_mix;
use shader_experiment::modes::{next_palette_index, BakeSize, DirectorFeel, Scene, Section};

#[test]
fn scene_cycle_switches_and_returns() {
    assert_eq!(Scene::Clouds.next(), Scene::Cube);
    assert_eq!(Scene::Cube.next(), Scene::Clouds);
    for s in [Scene::Clouds, Scene::Cube] {
        assert_eq!(s.next().next(), s);
        assert_ne!(s.next(), s);
    }
}

#[test]
fn bake_size_labels() {
    assert_eq!(BakeSize::Window.label(), "window");
    assert_eq!(BakeSize::P1080.label(), "1080p");
    assert_eq!(BakeSize::P1440.label(), "1440p");
    assert_eq!(BakeSize::P2160.label(), "2160p");
}

#[test]
fn bake_size_window_falls_back_to_window() {
    assert_eq!(BakeSize::Window.dimensions((1280, 720)), (1280, 720));
    assert_eq!(BakeSize::Window.dimensions((0, 0)), (0, 0));
}

#[test]
fn bake_size_presets_are_fixed() {
    assert_eq!(BakeSize::P1080.dimensions((1280, 720)), (1920, 1080));
    assert_eq!(BakeSize::P1440.dimensions((1280, 720)), (2560, 1440));
    assert_eq!(BakeSize::P2160.dimensions((7, 9)), (3840, 2160));
    for b in [BakeSize::P1080, BakeSize::P1440, BakeSize::P2160] {
        let (w, h) = b.dimensions((1, 1));
        assert_eq!(w * 9, h * 16);
    }
}

#[test]
fn director_feel_amounts_in_tenths() {
    assert_eq!(DirectorFeel::Off.amount_tenths(), 0);
    assert_eq!(DirectorFeel::Subtle.amount_tenths(), 5);
    assert_eq!(DirectorFeel::Cinematic.amount_tenths(), 10);
    assert_eq!(DirectorFeel::Theatrical.amount_tenths(), 16);
}

#[test]
fn section_thresholds_have_hysteresis() {
    assert_eq!(Section::Lull.thresholds_milli(), (100, 180));
    assert_eq!(Section::Cruise.thresholds_milli(), (70, 320));
    assert_eq!(Section::Peak.thresholds_milli(), (240, 400));
    assert!(Section::Peak.thresholds_milli().0 < Section::Cruise.thresholds_milli().1);
    assert!(Section::Cruise.thresholds_milli().0 < Section::Lull.thresholds_milli().1);
}

#[test]
fn section_classify_prefers_peak() {
    assert_eq!(Section::classify(true, true), Section::Peak);
    assert_eq!(Section::classify(true, false), Section::Peak);
    assert_eq!(Section::classify(false, true), Section::Lull);
    assert_eq!(Section::classify(false, false), Section::Cruise);
}

#[test]
fn section_changes_only_when_settled() {
    assert_eq!(Section::Cruise.settle(Section::Peak, false), (Section::Cruise, false));
    assert_eq!(Section::Cruise.settle(Section::Peak, true), (Section::Peak, true));
    assert_eq!(Section::Lull.settle(Section::Lull, true), (Section::Lull, false));
}

#[test]
fn palette_rotation_wraps() {
    assert_eq!(next_palette_index(0, 7), 1);
    assert_eq!(next_palette_index(6, 7), 0);
    assert_eq!(next_palette_index(0, 1), 0);
    let mut i = 0;
    let mut seen = vec![false; 7];
    for _ in 0..7 {
        seen[i] = true;
        i = next_palette_index(i, 7);
    }
    assert!(seen.iter().all(|s| *s));
    assert_eq!(i, 0);
}

#[test]
fn hash_mix_known_values() {
    assert_eq!(hash_mix(0, 0), 0);
    assert_eq!(hash_mix(1, 1), 39170614);
    assert_eq!(hash_mix(42, 100), 3736843707);
    assert_eq!(hash_mix(7, 200), 4172758367);
    assert_eq!(hash_mix(u32::MAX, u32::MAX), 4213715461);
}

#[test]
fn hash_mix_is_deterministic_and_salt_sensitive() {
    assert_eq!(hash_mix(9, 11), hash_mix(9, 11));
    assert_ne!(hash_mix(9, 11), hash_mix(9, 23));
    assert_ne!(hash_mix(9, 11), hash_mix(10, 11));
}
