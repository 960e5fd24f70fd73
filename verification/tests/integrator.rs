use rt::integrator::{Bounce, Path, Phase};

#[test]
fn path_starts_tracing_at_depth_zero() {
    let path = Path::new(100, 0);
    assert_eq!(path, Path { depth: 0, max_depth: 100, warm_up: 0, phase: Phase::Tracing });
    assert!(!path.is_ended());
}

#[test]
fn empty_scene_every_ray_escapes_untouched() {
    // In a scene without shapes the first trace of every path misses.
    for max_depth in [0usize, 1, 100] {
        let path = Path::new(max_depth, 0).on_bounce(Bounce::Missed);
        assert_eq!(path.phase, Phase::Escaped);
        assert_eq!(path.depth, 0);
        assert!(path.is_ended());
    }
}

#[test]
fn absorbing_material_ends_the_path_in_black() {
    let path = Path::new(100, 0).on_bounce(Bounce::Absorbed);
    assert_eq!(path.phase, Phase::Absorbed);
    assert_eq!(path.depth, 0);
    assert!(path.is_ended());
}

#[test]
fn scattered_ray_plays_roulette_then_goes_deeper() {
    let path = Path::new(100, 0).on_bounce(Bounce::Scattered);
    assert_eq!(path.phase, Phase::Rolling);
    assert_eq!(path.depth, 0);
    let path = path.on_roulette(true);
    assert_eq!(path.phase, Phase::Tracing);
    assert_eq!(path.depth, 1);
}

#[test]
fn roulette_loser_is_absorbed() {
    // A black surface survives with probability zero: every path that hits it dies here.
    let path = Path::new(100, 0).on_bounce(Bounce::Scattered).on_roulette(false);
    assert_eq!(path.phase, Phase::Absorbed);
    assert_eq!(path.depth, 0);
    assert!(path.is_ended());
}

#[test]
fn depth_limit_drops_the_scattered_ray() {
    let mut path = Path::new(2, 0);
    for depth in 0..2 {
        assert_eq!(path.depth, depth);
        path = path.on_bounce(Bounce::Scattered);
        assert_eq!(path.phase, Phase::Rolling);
        path = path.on_roulette(true);
        assert_eq!(path.phase, Phase::Tracing);
    }
    assert_eq!(path.depth, 2);
    path = path.on_bounce(Bounce::Scattered);
    assert_eq!(path.phase, Phase::Absorbed);
    assert_eq!(path.depth, 2);
}

#[test]
fn depth_limit_zero_follows_no_scattered_ray() {
    let path = Path::new(0, 0).on_bounce(Bounce::Scattered);
    assert_eq!(path.phase, Phase::Absorbed);
}

#[test]
fn a_ray_at_the_limit_may_still_escape() {
    let mut path = Path::new(1, 0);
    path = path.on_bounce(Bounce::Scattered).on_roulette(true);
    assert_eq!(path.depth, 1);
    path = path.on_bounce(Bounce::Missed);
    assert_eq!(path.phase, Phase::Escaped);
    assert_eq!(path.depth, 1);
}

#[test]
fn no_roulette_before_the_warm_up_depth() {
    let mut path = Path::new(10, 3);
    for depth in 0..3 {
        assert_eq!(path.depth, depth);
        path = path.on_bounce(Bounce::Scattered);
        assert_eq!(path.phase, Phase::Tracing);
    }
    assert_eq!(path.depth, 3);
    path = path.on_bounce(Bounce::Scattered);
    assert_eq!(path.phase, Phase::Rolling);
    assert_eq!(path.depth, 3);
}

#[test]
fn warm_up_beyond_the_limit_never_rolls() {
    let mut path = Path::new(2, 5);
    path = path.on_bounce(Bounce::Scattered);
    path = path.on_bounce(Bounce::Scattered);
    assert_eq!((path.depth, path.phase), (2, Phase::Tracing));
    path = path.on_bounce(Bounce::Scattered);
    assert_eq!(path.phase, Phase::Absorbed);
}

#[test]
fn ended_path_takes_no_more_events() {
    for ended in [Path::new(5, 0).on_bounce(Bounce::Missed), Path::new(5, 0).on_bounce(Bounce::Absorbed)] {
        for bounce in [Bounce::Missed, Bounce::Absorbed, Bounce::Scattered] {
            assert_eq!(ended.on_bounce(bounce), ended);
        }
        assert_eq!(ended.on_roulette(true), ended);
        assert_eq!(ended.on_roulette(false), ended);
    }
}

#[test]
fn events_out_of_turn_change_nothing() {
    let tracing = Path::new(5, 0);
    assert_eq!(tracing.on_roulette(true), tracing);
    assert_eq!(tracing.on_roulette(false), tracing);
    let rolling = tracing.on_bounce(Bounce::Scattered);
    for bounce in [Bounce::Missed, Bounce::Absorbed, Bounce::Scattered] {
        assert_eq!(rolling.on_bounce(bounce), rolling);
    }
}

#[test]
fn rolling_at_the_limit_is_absorbed_even_if_it_survives() {
    let stuck = Path { depth: 4, max_depth: 4, warm_up: 0, phase: Phase::Rolling };
    assert_eq!(stuck.on_roulette(true).phase, Phase::Absorbed);
    let edge = Path { depth: usize::MAX, max_depth: usize::MAX, warm_up: 0, phase: Phase::Rolling };
    assert_eq!(edge.on_roulette(true).phase, Phase::Absorbed);
}

#[test]
fn a_mirror_box_ends_every_path() {
    // Every trace hits, every material scatters, every roulette is won.
    for max_depth in [0usize, 1, 7, 100] {
        let mut path = Path::new(max_depth, 0);
        let mut events = 0;
        while !path.is_ended() {
            path = match path.phase {
                Phase::Tracing => path.on_bounce(Bounce::Scattered),
                _ => path.on_roulette(true),
            };
            events += 1;
            assert!(events <= 2 * max_depth + 1);
            assert!(path.depth <= max_depth);
        }
        assert_eq!(events, 2 * max_depth + 1);
        assert_eq!(path.phase, Phase::Absorbed);
        assert_eq!(path.depth, max_depth);
    }
}
