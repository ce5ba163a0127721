use collisions_disallowed::config::HIT_TOLERANCE;
use collisions_disallowed::{ConfigError, Game, SimulationConfig, Stability};

fn settings(circle_count: usize, stable_threshold: u32) -> SimulationConfig {
    SimulationConfig {
        circle_count,
        max_radius: 40,
        max_initial_speed: 250,
        stable_threshold,
        width: 1200,
        height: 900,
    }
}

fn game(circle_count: usize, stable_threshold: u32) -> Game {
    match Game::new(&settings(circle_count, stable_threshold)) {
        Ok(made) => made,
        Err(e) => panic!("settings refused: {:?}", e),
    }
}

fn records(game: &Game) -> Vec<(u32, bool)> {
    let mut all = Vec::new();
    for i in 0..game.len() {
        all.push((game.clean_streak(i), game.is_stable(i)));
    }
    all
}

#[test]
fn new_game_has_every_circle_fresh() {
    let made = game(4, 500);
    assert_eq!(made.len(), 4);
    assert_eq!(made.stable_threshold(), 500);
    assert_eq!(made.n_stable(), 0);
    assert_eq!(records(&made), vec![(0, false); 4]);
    for i in 0..4 {
        assert_eq!(made.stability(i), Stability { clean_streak: 0, is_stable: false });
    }
}

#[test]
fn new_game_takes_settings_from_answers() {
    let answered = SimulationConfig::from_answers(10, 40, 250);
    let made = match answered {
        Ok(settings) => Game::new(&settings),
        Err(e) => Err(e),
    };
    match made {
        Ok(made) => {
            assert_eq!(made.len(), 10);
            assert_eq!(made.stable_threshold(), 500);
        }
        Err(e) => panic!("settings refused: {:?}", e),
    }
}

#[test]
fn new_game_refuses_low_settings() {
    let mut low = settings(0, 500);
    assert_eq!(Game::new(&low).err(), Some(ConfigError::CircleCount));
    low = settings(3, 500);
    low.max_radius = 4;
    assert_eq!(Game::new(&low).err(), Some(ConfigError::MaxRadius));
    low = settings(3, 500);
    low.max_initial_speed = 0;
    assert_eq!(Game::new(&low).err(), Some(ConfigError::MaxInitialSpeed));
    low = settings(0, 500);
    low.max_radius = 0;
    low.max_initial_speed = 0;
    assert_eq!(Game::new(&low).err(), Some(ConfigError::CircleCount));
}

#[test]
fn a_frame_without_hits_counts_for_everyone() {
    let mut run = game(3, 500);
    run.step(&[]);
    assert_eq!(records(&run), vec![(1, false), (1, false), (1, false)]);
    run.step(&[]);
    assert_eq!(records(&run), vec![(2, false), (2, false), (2, false)]);
    assert_eq!(run.n_stable(), 0);
}

#[test]
fn a_hit_resets_both_circles_and_no_other() {
    let mut run = game(4, 500);
    run.step(&[]);
    run.step(&[]);
    run.step(&[(1, 3)]);
    assert_eq!(records(&run), vec![(3, false), (0, false), (3, false), (0, false)]);
}

#[test]
fn two_overlapping_circles_both_start_over() {
    let radii: [f32; 2] = [10.0, 10.0];
    let distance: f32 = 15.0;
    let overlap = radii[0] + radii[1] - distance;
    let mut hits: Vec<(usize, usize)> = Vec::new();
    if overlap >= HIT_TOLERANCE as f32 {
        hits.push((0, 1));
    }
    assert_eq!(hits, vec![(0, 1)]);

    let mut run = game(2, 500);
    run.step(&hits);
    assert_eq!(run.len(), 2);
    assert_eq!(records(&run), vec![(0, false), (0, false)]);
    assert_eq!(run.n_stable(), 0);
}

#[test]
fn a_push_below_the_tolerance_is_no_hit() {
    let radii: [f32; 2] = [10.0, 10.0];
    let distance: f32 = 19.5;
    let overlap = radii[0] + radii[1] - distance;
    let mut hits: Vec<(usize, usize)> = Vec::new();
    if overlap >= HIT_TOLERANCE as f32 {
        hits.push((0, 1));
    }
    assert!(hits.is_empty());

    let mut run = game(2, 500);
    run.step(&hits);
    assert_eq!(records(&run), vec![(1, false), (1, false)]);
}

#[test]
fn a_lone_circle_counts_its_first_frame() {
    let mut run = game(1, 500);
    run.step(&[]);
    assert_eq!(run.len(), 1);
    assert_eq!(records(&run), vec![(1, false)]);
    assert_eq!(run.n_stable(), 0);
}

#[test]
fn being_struck_wins_over_resting_in_the_same_frame() {
    // Circle 2 is only ever the second of a pair; circle 0 only the first.
    let mut run = game(3, 500);
    run.step(&[]);
    run.step(&[(0, 2)]);
    assert_eq!(records(&run), vec![(0, false), (2, false), (0, false)]);
    run.step(&[(1, 2)]);
    assert_eq!(records(&run), vec![(1, false), (0, false), (0, false)]);
}

#[test]
fn order_and_repeats_of_hits_do_not_matter() {
    let mut forward = game(5, 500);
    let mut backward = game(5, 500);
    forward.step(&[]);
    backward.step(&[]);
    forward.step(&[(0, 1), (0, 4), (2, 4)]);
    backward.step(&[(2, 4), (0, 4), (0, 1), (0, 4)]);
    assert_eq!(records(&forward), records(&backward));
    assert_eq!(
        records(&forward),
        vec![(0, false), (0, false), (0, false), (2, false), (0, false)]
    );
}

#[test]
fn stable_on_exactly_the_frame_that_reaches_the_threshold() {
    let mut run = game(2, 3);
    run.step(&[]);
    assert_eq!(records(&run), vec![(1, false), (1, false)]);
    assert_eq!(run.n_stable(), 0);
    run.step(&[]);
    assert_eq!(records(&run), vec![(2, false), (2, false)]);
    assert_eq!(run.n_stable(), 0);
    run.step(&[]);
    assert_eq!(records(&run), vec![(3, true), (3, true)]);
    assert_eq!(run.n_stable(), 2);
}

#[test]
fn stable_circles_stay_stable_while_nothing_hits_them() {
    let mut run = game(2, 3);
    for _ in 0..3 {
        run.step(&[]);
    }
    for _ in 0..10 {
        run.step(&[]);
        assert_eq!(records(&run), vec![(3, true), (3, true)]);
        assert_eq!(run.n_stable(), 2);
    }
}

#[test]
fn a_hit_on_a_stable_circle_resets_it_in_that_frame() {
    let mut run = game(3, 2);
    run.step(&[]);
    run.step(&[]);
    assert_eq!(records(&run), vec![(2, true), (2, true), (2, true)]);
    assert_eq!(run.n_stable(), 3);
    run.step(&[(0, 2)]);
    assert_eq!(records(&run), vec![(0, false), (2, true), (0, false)]);
    assert_eq!(run.n_stable(), 1);
    assert!(!run.is_stable(0));
    assert_eq!(run.clean_streak(0), 0);
    assert!(run.is_stable(1));
    assert!(!run.is_stable(2));
    assert_eq!(run.clean_streak(2), 0);
}

#[test]
fn a_reset_circle_needs_the_whole_threshold_again() {
    let mut run = game(2, 2);
    run.step(&[]);
    run.step(&[]);
    assert_eq!(run.n_stable(), 2);
    run.step(&[(0, 1)]);
    assert_eq!(run.n_stable(), 0);
    run.step(&[]);
    assert_eq!(records(&run), vec![(1, false), (1, false)]);
    assert_eq!(run.n_stable(), 0);
    run.step(&[]);
    assert_eq!(records(&run), vec![(2, true), (2, true)]);
    assert_eq!(run.n_stable(), 2);
}

#[test]
fn default_threshold_takes_five_hundred_frames() {
    let mut run = game(2, 500);
    for _ in 0..499 {
        run.step(&[]);
    }
    assert_eq!(records(&run), vec![(499, false), (499, false)]);
    assert_eq!(run.n_stable(), 0);
    run.step(&[]);
    assert_eq!(records(&run), vec![(500, true), (500, true)]);
    assert_eq!(run.n_stable(), 2);
    run.step(&[]);
    assert_eq!(records(&run), vec![(500, true), (500, true)]);
}

#[test]
fn threshold_zero_makes_stable_after_the_first_clean_frame() {
    let mut run = game(2, 0);
    assert_eq!(records(&run), vec![(0, false), (0, false)]);
    assert_eq!(run.n_stable(), 0);
    run.step(&[(0, 1)]);
    assert_eq!(records(&run), vec![(0, false), (0, false)]);
    run.step(&[]);
    assert_eq!(records(&run), vec![(1, true), (1, true)]);
    assert_eq!(run.n_stable(), 2);
}

#[test]
fn circle_count_never_changes_and_bounds_the_stable_count() {
    let mut run = game(6, 2);
    let frames: Vec<Vec<(usize, usize)>> = vec![
        vec![],
        vec![(0, 5)],
        vec![],
        vec![(1, 2), (3, 4)],
        vec![],
        vec![],
        vec![(0, 1), (0, 2), (0, 3), (0, 4), (0, 5)],
        vec![],
        vec![],
    ];
    let expected_stable: Vec<usize> = vec![0, 4, 4, 2, 2, 6, 0, 0, 6];
    for (hits, stable) in frames.iter().zip(expected_stable.iter()) {
        run.step(hits);
        assert_eq!(run.len(), 6);
        assert!(run.n_stable() <= run.len());
        assert_eq!(run.n_stable(), *stable);
        let counted = (0..run.len()).filter(|&i| run.is_stable(i)).count();
        assert_eq!(run.n_stable(), counted);
    }
}

#[test]
fn the_stable_flag_goes_with_the_streak() {
    let mut run = game(3, 4);
    let frames: Vec<Vec<(usize, usize)>> =
        vec![vec![], vec![], vec![(0, 1)], vec![], vec![], vec![], vec![(1, 2)], vec![]];
    for hits in frames.iter() {
        run.step(hits);
        for i in 0..run.len() {
            let record = run.stability(i);
            assert_eq!(record.is_stable, record.clean_streak >= 4);
            assert_eq!(record.clean_streak, run.clean_streak(i));
            assert_eq!(record.is_stable, run.is_stable(i));
        }
    }
    assert_eq!(records(&run), vec![(4, true), (1, false), (1, false)]);
}
