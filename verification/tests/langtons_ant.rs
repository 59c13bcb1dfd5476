use systems_core::langtons_ant::DEFAULT_TICK_MS;
use systems_core::langtons_ant::SPEED_STEP_MS;
use systems_core::Ant;
use systems_core::AntAutomata;
use systems_core::Cell;
use systems_core::Direction;
use systems_core::Region;

fn anywhere() -> Region {
    Region::new(-100, -100, 100, 100)
}

fn seeded() -> AntAutomata {
    let mut automaton = AntAutomata::new(0);
    automaton.init(false, &anywhere(), 0);
    automaton
}

fn ant(x: i64, y: i64, dir: Direction) -> Ant {
    Ant::new(Cell::new((x, y)), dir)
}

fn flipped(automaton: &AntAutomata) -> Vec<(i64, i64)> {
    automaton.flipped_cells().iter().map(|c| c.pos).collect()
}

#[test]
fn directions_turn_by_quarters() {
    let all = [Direction::Up, Direction::Right, Direction::Down, Direction::Left];
    for (i, start) in all.iter().enumerate() {
        let mut d = *start;
        d.turn_clockwise();
        assert_eq!(d, all[(i + 1) % 4]);
        let mut d = *start;
        d.turn_anticlockwise();
        assert_eq!(d, all[(i + 3) % 4]);
        let mut d = *start;
        d.turn_clockwise();
        d.turn_anticlockwise();
        assert_eq!(d, *start);
    }
}

#[test]
fn ant_turns_and_advances() {
    let mut a = ant(3, 3, Direction::Up);
    a.turn_clockwise();
    assert_eq!(a, ant(3, 3, Direction::Right));
    a.advance();
    assert_eq!(a, ant(4, 3, Direction::Right));
    a.turn_clockwise();
    a.advance();
    assert_eq!(a, ant(4, 4, Direction::Down));
    a.turn_clockwise();
    a.advance();
    assert_eq!(a, ant(3, 4, Direction::Left));
    a.turn_clockwise();
    a.advance();
    assert_eq!(a, ant(3, 3, Direction::Up));
    a.turn_anticlockwise();
    assert_eq!(a, ant(3, 3, Direction::Left));
}

#[test]
fn new_automaton_is_empty() {
    let automaton = AntAutomata::new(9);
    assert!(!automaton.is_initialised());
    assert_eq!(automaton.ant_count(), 0);
    assert!(automaton.ants().is_empty());
    assert!(automaton.flipped_cells().is_empty());
    assert_eq!(automaton.last_tick(), 9);
    assert_eq!(automaton.tick_per(), DEFAULT_TICK_MS);
    assert_eq!(automaton.tick_per(), 150);
    assert_eq!(automaton.name(), "Langton's Ant");
}

#[test]
fn init_places_one_walker_at_the_origin_facing_up() {
    let mut automaton = AntAutomata::new(0);
    automaton.init(false, &Region::new(500, 500, 900, 900), 12);
    assert!(automaton.is_initialised());
    assert_eq!(automaton.ants(), vec![ant(0, 0, Direction::Up)]);
    assert!(automaton.flipped_cells().is_empty());
    assert_eq!(automaton.last_tick(), 12);
}

#[test]
fn first_visit_flips_and_turns_anticlockwise() {
    let mut automaton = seeded();
    assert!(automaton.can_tick());
    automaton.tick();
    assert_eq!(automaton.ants(), vec![ant(-1, 0, Direction::Left)]);
    assert_eq!(flipped(&automaton), vec![(0, 0)]);
    assert!(automaton.is_flipped(&Cell::new((0, 0))));
}

#[test]
fn second_visit_unflips_and_turns_clockwise() {
    let mut automaton = seeded();
    for _ in 0..4 {
        automaton.tick();
    }
    // Four left turns round a square: back at the origin, which is flipped.
    assert_eq!(automaton.ants(), vec![ant(0, 0, Direction::Up)]);
    assert_eq!(flipped(&automaton), vec![(-1, 0), (-1, 1), (0, 0), (0, 1)]);
    automaton.tick();
    assert_eq!(automaton.ants(), vec![ant(1, 0, Direction::Right)]);
    assert!(!automaton.is_flipped(&Cell::new((0, 0))));
    assert_eq!(flipped(&automaton), vec![(-1, 0), (-1, 1), (0, 1)]);
}

#[test]
fn single_walker_builds_the_highway() {
    let mut automaton = seeded();
    for _ in 0..10_000 {
        automaton.tick();
    }
    assert_eq!(automaton.ants(), vec![ant(16, -10, Direction::Up)]);
    assert_eq!(automaton.flipped_cells().len(), 720);
    for _ in 0..400 {
        automaton.tick();
    }
    // From here on every 104 ticks bring the walker two cells along the
    // diagonal, with the same facing, and leave twelve more cells flipped.
    let mut at = (24, 0);
    let mut count = 764;
    for _ in 0..5 {
        assert_eq!(automaton.ants(), vec![ant(at.0, at.1, Direction::Up)]);
        assert_eq!(automaton.flipped_cells().len(), count);
        for _ in 0..104 {
            automaton.tick();
        }
        at = (at.0 + 2, at.1 + 2);
        count += 12;
    }
    // The flipped cells have grown along the highway only: ten cells
    // further in x, none further back.
    let cells = flipped(&automaton);
    let max_x = cells.iter().map(|c| c.0).max().unwrap();
    let min_x = cells.iter().map(|c| c.0).min().unwrap();
    assert_eq!(max_x, 35);
    assert_eq!(min_x, -29);
}

#[test]
fn later_walker_sees_what_an_earlier_one_flipped_in_the_same_tick() {
    let mut automaton = seeded();
    automaton.add_walker_at(Cell::new((0, 0)));
    automaton.tick();
    // The first flips the origin and turns left; the second finds it
    // flipped, unflips it and turns right.
    assert_eq!(
        automaton.ants(),
        vec![ant(-1, 0, Direction::Left), ant(1, 0, Direction::Right)]
    );
    assert!(automaton.flipped_cells().is_empty());
    automaton.tick();
    assert_eq!(
        automaton.ants(),
        vec![ant(-1, 1, Direction::Down), ant(1, -1, Direction::Up)]
    );
    assert_eq!(flipped(&automaton), vec![(-1, 0), (1, 0)]);
}

#[test]
fn walkers_far_apart_do_not_disturb_each_other() {
    let mut automaton = seeded();
    automaton.add_walker_at(Cell::new((1000, -1000)));
    for _ in 0..5 {
        automaton.tick();
    }
    assert_eq!(
        automaton.ants(),
        vec![ant(1, 0, Direction::Right), ant(1001, -1000, Direction::Right)]
    );
    assert_eq!(automaton.flipped_cells().len(), 6);
}

#[test]
fn add_walker_at_appends_a_walker_facing_up() {
    let mut automaton = seeded();
    automaton.add_walker_at(Cell::new((7, -2)));
    automaton.add_walker_at(Cell::new((7, -2)));
    assert_eq!(automaton.ant_count(), 3);
    assert_eq!(
        automaton.ants(),
        vec![
            ant(0, 0, Direction::Up),
            ant(7, -2, Direction::Up),
            ant(7, -2, Direction::Up)
        ]
    );
}

#[test]
fn ant_init_without_restart_is_idempotent() {
    let mut automaton = seeded();
    automaton.tick();
    automaton.add_walker_at(Cell::new((5, 5)));
    automaton.adjust_speed(true);
    let ants = automaton.ants();
    let cells = automaton.flipped_cells();
    automaton.init(false, &anywhere(), 999);
    automaton.init(false, &anywhere(), 1999);
    assert_eq!(automaton.ants(), ants);
    assert_eq!(automaton.flipped_cells(), cells);
    assert_eq!(automaton.last_tick(), 0);
    assert_eq!(automaton.tick_per(), 130);
}

#[test]
fn ant_init_with_restart_starts_again_and_keeps_the_speed() {
    let mut automaton = seeded();
    automaton.tick();
    automaton.add_walker_at(Cell::new((5, 5)));
    automaton.adjust_speed(false);
    automaton.init(true, &anywhere(), 60);
    assert_eq!(automaton.ants(), vec![ant(0, 0, Direction::Up)]);
    assert!(automaton.flipped_cells().is_empty());
    assert_eq!(automaton.last_tick(), 60);
    assert_eq!(automaton.tick_per(), 170);
}

#[test]
fn ant_clear_empties_and_resets_the_speed() {
    let mut automaton = seeded();
    automaton.tick();
    automaton.adjust_speed(true);
    automaton.clear(33);
    assert!(automaton.is_initialised());
    assert_eq!(automaton.ant_count(), 0);
    assert!(automaton.flipped_cells().is_empty());
    assert_eq!(automaton.last_tick(), 33);
    assert_eq!(automaton.tick_per(), 150);
    automaton.init(false, &anywhere(), 40);
    assert_eq!(automaton.ant_count(), 0);
}

#[test]
fn speed_changes_by_fixed_steps_and_never_reaches_zero() {
    let mut automaton = AntAutomata::new(0);
    assert_eq!(SPEED_STEP_MS, 20);
    automaton.adjust_speed(false);
    assert_eq!(automaton.tick_per(), 170);
    automaton.adjust_speed(true);
    automaton.adjust_speed(true);
    assert_eq!(automaton.tick_per(), 130);
    for _ in 0..20 {
        automaton.adjust_speed(true);
    }
    assert_eq!(automaton.tick_per(), 10);
    assert!(automaton.can_slow_down());
    automaton.adjust_speed(false);
    assert_eq!(automaton.tick_per(), 30);
}

#[test]
fn ant_handle_input_adds_a_walker_and_adjusts_the_speed() {
    let mut automaton = AntAutomata::new(0);
    automaton.handle_input(Cell::new((2, 3)), false, false, false);
    assert_eq!(automaton.ant_count(), 0);
    assert_eq!(automaton.tick_per(), 150);

    automaton.handle_input(Cell::new((2, 3)), true, true, false);
    assert_eq!(automaton.ants(), vec![ant(2, 3, Direction::Up)]);
    assert_eq!(automaton.tick_per(), 130);

    automaton.handle_input(Cell::new((0, 0)), false, false, true);
    assert_eq!(automaton.ant_count(), 1);
    assert_eq!(automaton.tick_per(), 150);

    // With both keys down the faster one counts while it can.
    automaton.handle_input(Cell::new((0, 0)), false, true, true);
    assert_eq!(automaton.tick_per(), 130);
    for _ in 0..10 {
        automaton.handle_input(Cell::new((0, 0)), false, true, false);
    }
    assert_eq!(automaton.tick_per(), 10);
    automaton.handle_input(Cell::new((0, 0)), false, true, true);
    assert_eq!(automaton.tick_per(), 30);
}

#[test]
fn ant_step_is_rate_limited() {
    let mut automaton = AntAutomata::new(0);
    automaton.init(false, &anywhere(), 100);
    automaton.step(249);
    assert_eq!(automaton.ants(), vec![ant(0, 0, Direction::Up)]);
    assert_eq!(automaton.last_tick(), 100);
    automaton.step(250);
    assert_eq!(automaton.ants(), vec![ant(-1, 0, Direction::Left)]);
    assert_eq!(automaton.last_tick(), 250);
}

#[test]
fn ant_two_steps_within_the_interval_give_the_same_state() {
    let mut automaton = seeded();
    automaton.step(200);
    let ants = automaton.ants();
    let cells = automaton.flipped_cells();
    automaton.step(349);
    assert_eq!(automaton.ants(), ants);
    assert_eq!(automaton.flipped_cells(), cells);
    assert_eq!(automaton.last_tick(), 200);
    automaton.step(350);
    assert_ne!(automaton.ants(), ants);
}

#[test]
fn ant_tick_is_due_after_the_adjusted_interval() {
    let mut automaton = AntAutomata::new(1000);
    assert!(!automaton.is_due(1149));
    assert!(automaton.is_due(1150));
    automaton.adjust_speed(false);
    assert!(!automaton.is_due(1150));
    assert!(automaton.is_due(1170));
    assert!(!automaton.is_due(5));
}

#[test]
fn ant_step_follows_the_adjusted_speed() {
    let mut automaton = seeded();
    for _ in 0..7 {
        automaton.adjust_speed(true);
    }
    assert_eq!(automaton.tick_per(), 10);
    automaton.step(9);
    assert_eq!(automaton.last_tick(), 0);
    automaton.step(10);
    assert_eq!(automaton.last_tick(), 10);
    assert_eq!(automaton.ants(), vec![ant(-1, 0, Direction::Left)]);
}

#[test]
fn ant_step_before_init_is_a_safe_no_op() {
    let mut automaton = AntAutomata::new(0);
    automaton.step(100_000);
    assert_eq!(automaton.ant_count(), 0);
    assert!(automaton.flipped_cells().is_empty());
    assert_eq!(automaton.last_tick(), 100_000);
}

#[test]
fn ant_can_tick_refuses_walkers_on_the_edge_of_the_coordinates() {
    let mut automaton = seeded();
    assert!(automaton.can_tick());
    automaton.add_walker_at(Cell::new((i64::MAX - 1, i64::MIN + 1)));
    assert!(automaton.can_tick());
    automaton.add_walker_at(Cell::new((0, i64::MIN)));
    assert!(!automaton.can_tick());
}

#[test]
fn visible_walkers_and_cells_are_those_inside_the_view() {
    let mut automaton = seeded();
    automaton.add_walker_at(Cell::new((50, 50)));
    for _ in 0..4 {
        automaton.tick();
    }
    let view = Region::new(-1, 0, 0, 0);
    assert_eq!(automaton.visible_ants(&view), vec![ant(0, 0, Direction::Up)]);
    let seen: Vec<(i64, i64)> = automaton
        .visible_flipped_cells(&view)
        .iter()
        .map(|c| c.pos)
        .collect();
    assert_eq!(seen, vec![(-1, 0), (0, 0)]);
    assert_eq!(automaton.visible_ants(&anywhere()).len(), 2);
    assert_eq!(automaton.visible_flipped_cells(&anywhere()).len(), 8);
}
