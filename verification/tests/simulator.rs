use dropgrid::buffer::RenderBuffer;
use dropgrid::rect::Rect;
use dropgrid::simulator::{DropConfig, DropSimulator};
use dropgrid::spawn::{draw, spawn, spawn_row};
use dropgrid::step::{advance, advance_column};
use dropgrid::tier::{DropSpeed, PerTier};

const NOBODY: PerTier<bool> = PerTier { fast: false, medium: false, slow: false };
const FAST: PerTier<bool> = PerTier { fast: true, medium: false, slow: false };
const SLOW: PerTier<bool> = PerTier { fast: false, medium: false, slow: true };
const EVERYBODY: PerTier<bool> = PerTier { fast: true, medium: true, slow: true };
const LOSE: PerTier<u32> = PerTier { fast: 999, medium: 999, slow: 999 };

fn grid(width: u16, height: u16) -> RenderBuffer {
    RenderBuffer::new(Rect { x: 0, y: 0, width, height })
}

fn column(buffer: &RenderBuffer, x: usize) -> Vec<Vec<DropSpeed>> {
    buffer.buf[x].iter().map(|cell| cell.tiers()).collect()
}

fn snapshot(buffer: &RenderBuffer) -> Vec<Vec<Vec<DropSpeed>>> {
    (0..buffer.buf.len()).map(|x| column(buffer, x)).collect()
}

fn every_tick_fast_only() -> DropConfig {
    DropConfig {
        spawn_rate: PerTier { fast: 500, medium: 0, slow: 0 },
        speed_ratio: PerTier { fast: 1, medium: 1, slow: 1 },
    }
}

#[test]
fn spawn_and_fall() {
    let mut buffer = grid(5, 4);
    let mut simulator = DropSimulator::new(every_tick_fast_only());
    let win = PerTier { fast: 0, medium: 0, slow: 0 };
    // tick 1: a fast drop appears at the top of column 2
    simulator.tick(&mut buffer, &vec![LOSE, LOSE, win, LOSE, LOSE]);
    assert_eq!(column(&buffer, 2), vec![vec![DropSpeed::Fast], vec![], vec![], vec![]]);
    // tick 2: it is in row 1
    simulator.tick(&mut buffer, &vec![]);
    assert_eq!(column(&buffer, 2), vec![vec![], vec![DropSpeed::Fast], vec![], vec![]]);
    simulator.tick(&mut buffer, &vec![]);
    assert_eq!(column(&buffer, 2), vec![vec![], vec![], vec![DropSpeed::Fast], vec![]]);
    simulator.tick(&mut buffer, &vec![]);
    assert_eq!(column(&buffer, 2), vec![vec![], vec![], vec![], vec![DropSpeed::Fast]]);
    simulator.tick(&mut buffer, &vec![]);
    assert_eq!(column(&buffer, 2), vec![vec![]; 4]);
    // four ticks after tick 2 the drop has left, and it stays away
    simulator.tick(&mut buffer, &vec![]);
    assert_eq!(snapshot(&buffer), vec![vec![vec![]; 4]; 5]);
}

#[test]
fn a_drop_past_the_last_row_is_gone_at_once_and_for_good() {
    let mut buffer = grid(1, 2);
    assert!(spawn(&mut buffer, 0, DropSpeed::Medium));
    advance(&mut buffer, EVERYBODY);
    assert_eq!(column(&buffer, 0), vec![vec![], vec![DropSpeed::Medium]]);
    advance(&mut buffer, EVERYBODY);
    assert_eq!(column(&buffer, 0), vec![vec![], vec![]]);
    for _ in 0..10 {
        advance(&mut buffer, EVERYBODY);
        assert_eq!(column(&buffer, 0), vec![vec![], vec![]]);
    }
}

#[test]
fn a_column_of_one_row_loses_its_drop_on_the_first_move() {
    let mut buffer = grid(1, 1);
    spawn(&mut buffer, 0, DropSpeed::Fast);
    spawn(&mut buffer, 0, DropSpeed::Slow);
    advance(&mut buffer, FAST);
    assert_eq!(column(&buffer, 0), vec![vec![DropSpeed::Slow]]);
    advance(&mut buffer, SLOW);
    assert_eq!(column(&buffer, 0), vec![vec![]]);
}

#[test]
fn only_the_tiers_that_are_due_move() {
    let mut buffer = grid(1, 3);
    spawn(&mut buffer, 0, DropSpeed::Fast);
    spawn(&mut buffer, 0, DropSpeed::Medium);
    spawn(&mut buffer, 0, DropSpeed::Slow);
    advance(&mut buffer, NOBODY);
    assert_eq!(
        column(&buffer, 0),
        vec![vec![DropSpeed::Fast, DropSpeed::Medium, DropSpeed::Slow], vec![], vec![]]
    );
    advance(&mut buffer, PerTier { fast: true, medium: false, slow: true });
    assert_eq!(
        column(&buffer, 0),
        vec![vec![DropSpeed::Medium], vec![DropSpeed::Fast, DropSpeed::Slow], vec![]]
    );
}

#[test]
fn arrivals_go_behind_what_rests_in_the_cell() {
    let mut buffer = grid(1, 2);
    spawn(&mut buffer, 0, DropSpeed::Slow);
    advance(&mut buffer, SLOW);
    spawn(&mut buffer, 0, DropSpeed::Medium);
    spawn(&mut buffer, 0, DropSpeed::Fast);
    assert_eq!(
        column(&buffer, 0),
        vec![vec![DropSpeed::Medium, DropSpeed::Fast], vec![DropSpeed::Slow]]
    );
    advance(&mut buffer, PerTier { fast: true, medium: true, slow: false });
    assert_eq!(
        column(&buffer, 0),
        vec![vec![], vec![DropSpeed::Slow, DropSpeed::Medium, DropSpeed::Fast]]
    );
}

#[test]
fn a_drop_moves_one_row_per_step_however_long_the_column() {
    let mut buffer = grid(1, 6);
    spawn(&mut buffer, 0, DropSpeed::Fast);
    for row in 1..6 {
        advance(&mut buffer, FAST);
        for y in 0..6 {
            assert_eq!(buffer.buf[0][y].contains(DropSpeed::Fast), y == row);
        }
    }
}

#[test]
fn drops_of_one_tier_keep_their_distance() {
    let mut buffer = grid(1, 4);
    spawn(&mut buffer, 0, DropSpeed::Fast);
    advance(&mut buffer, FAST);
    spawn(&mut buffer, 0, DropSpeed::Fast);
    advance(&mut buffer, FAST);
    spawn(&mut buffer, 0, DropSpeed::Fast);
    assert_eq!(
        column(&buffer, 0),
        vec![vec![DropSpeed::Fast], vec![DropSpeed::Fast], vec![DropSpeed::Fast], vec![]]
    );
    advance(&mut buffer, FAST);
    assert_eq!(
        column(&buffer, 0),
        vec![vec![], vec![DropSpeed::Fast], vec![DropSpeed::Fast], vec![DropSpeed::Fast]]
    );
}

#[test]
fn three_tiers_that_meet_in_one_cell_all_fit() {
    let mut buffer = grid(1, 3);
    spawn(&mut buffer, 0, DropSpeed::Slow);
    advance(&mut buffer, SLOW);
    advance(&mut buffer, SLOW);
    spawn(&mut buffer, 0, DropSpeed::Medium);
    advance(&mut buffer, PerTier { fast: false, medium: true, slow: false });
    spawn(&mut buffer, 0, DropSpeed::Fast);
    advance(&mut buffer, PerTier { fast: false, medium: true, slow: false });
    advance(&mut buffer, FAST);
    advance(&mut buffer, FAST);
    assert_eq!(
        column(&buffer, 0),
        vec![vec![], vec![], vec![DropSpeed::Slow, DropSpeed::Medium, DropSpeed::Fast]]
    );
}

#[test]
fn advance_works_on_every_column() {
    let mut buffer = grid(3, 2);
    spawn(&mut buffer, 0, DropSpeed::Fast);
    spawn(&mut buffer, 2, DropSpeed::Fast);
    spawn(&mut buffer, 1, DropSpeed::Slow);
    advance(&mut buffer, FAST);
    assert_eq!(
        snapshot(&buffer),
        vec![
            vec![vec![], vec![DropSpeed::Fast]],
            vec![vec![DropSpeed::Slow], vec![]],
            vec![vec![], vec![DropSpeed::Fast]],
        ]
    );
}

#[test]
fn advance_leaves_the_scratch_line_alone() {
    let mut buffer = grid(2, 2);
    buffer.line.push(DropSpeed::Medium);
    advance(&mut buffer, EVERYBODY);
    assert_eq!(buffer.line, vec![DropSpeed::Medium]);
}

#[test]
fn advance_column_on_its_own() {
    let mut buffer = grid(1, 3);
    spawn(&mut buffer, 0, DropSpeed::Medium);
    let mut cells = buffer.buf[0].clone();
    advance_column(&mut cells, EVERYBODY);
    let tiers: Vec<Vec<DropSpeed>> = cells.iter().map(|cell| cell.tiers()).collect();
    assert_eq!(tiers, vec![vec![], vec![DropSpeed::Medium], vec![]]);
    let mut none = Vec::new();
    advance_column(&mut none, EVERYBODY);
    assert!(none.is_empty());
}

#[test]
fn advance_keeps_the_length_of_ragged_columns() {
    let mut buffer = grid(2, 3);
    buffer.buf[1].truncate(1);
    spawn(&mut buffer, 0, DropSpeed::Fast);
    spawn(&mut buffer, 1, DropSpeed::Fast);
    advance(&mut buffer, FAST);
    assert_eq!(
        snapshot(&buffer),
        vec![vec![vec![], vec![DropSpeed::Fast], vec![]], vec![vec![]]]
    );
}

#[test]
fn spawn_puts_the_drop_in_the_top_row() {
    let mut buffer = grid(3, 2);
    assert!(spawn(&mut buffer, 1, DropSpeed::Medium));
    assert_eq!(
        snapshot(&buffer),
        vec![vec![vec![], vec![]], vec![vec![DropSpeed::Medium], vec![]], vec![vec![], vec![]]]
    );
}

#[test]
fn spawn_follows_the_rule_of_the_cell() {
    let mut buffer = grid(1, 1);
    assert!(!spawn(&mut buffer, 0, DropSpeed::Absent));
    assert!(spawn(&mut buffer, 0, DropSpeed::Fast));
    assert!(!spawn(&mut buffer, 0, DropSpeed::Fast));
    assert!(spawn(&mut buffer, 0, DropSpeed::Slow));
    assert!(spawn(&mut buffer, 0, DropSpeed::Medium));
    assert!(!spawn(&mut buffer, 0, DropSpeed::Medium));
    assert_eq!(
        column(&buffer, 0),
        vec![vec![DropSpeed::Fast, DropSpeed::Slow, DropSpeed::Medium]]
    );
}

#[test]
fn spawn_outside_the_grid_does_nothing() {
    let mut buffer = grid(2, 2);
    assert!(!spawn(&mut buffer, 2, DropSpeed::Fast));
    assert!(!spawn(&mut buffer, usize::MAX, DropSpeed::Fast));
    assert_eq!(snapshot(&buffer), vec![vec![vec![]; 2]; 2]);
    let mut flat = grid(2, 0);
    assert!(!spawn(&mut flat, 0, DropSpeed::Fast));
    let mut none = grid(0, 2);
    assert!(!spawn(&mut none, 0, DropSpeed::Fast));
}

#[test]
fn a_roll_wins_below_the_rate() {
    let rates = PerTier { fast: 20, medium: 1, slow: 999 };
    assert_eq!(
        draw(&rates, &PerTier { fast: 19, medium: 0, slow: 998 }),
        PerTier { fast: true, medium: true, slow: true }
    );
    assert_eq!(
        draw(&rates, &PerTier { fast: 20, medium: 1, slow: 999 }),
        PerTier { fast: false, medium: false, slow: false }
    );
    assert_eq!(
        draw(&rates, &PerTier { fast: 1019, medium: 5000, slow: 4_294_967_295 }),
        PerTier { fast: true, medium: true, slow: true }
    );
    assert_eq!(
        draw(&rates, &PerTier { fast: 1020, medium: 5001, slow: 1999 }),
        PerTier { fast: false, medium: false, slow: false }
    );
}

#[test]
fn a_rate_of_zero_never_spawns_and_a_rate_of_a_thousand_always() {
    let never = PerTier { fast: 0, medium: 0, slow: 0 };
    let always = PerTier { fast: 1000, medium: 1001, slow: 65535 };
    for roll in [0u32, 1, 500, 999, 1000, 123_456, u32::MAX] {
        let rolls = PerTier { fast: roll, medium: roll, slow: roll };
        assert_eq!(draw(&never, &rolls), NOBODY);
        assert_eq!(draw(&always, &rolls), EVERYBODY);
    }
}

#[test]
fn spawn_row_spawns_what_each_column_draws() {
    let mut buffer = grid(4, 2);
    let rates = PerTier { fast: 100, medium: 200, slow: 300 };
    let rolls = vec![
        PerTier { fast: 99, medium: 200, slow: 300 },
        PerTier { fast: 100, medium: 199, slow: 299 },
        PerTier { fast: 0, medium: 0, slow: 0 },
        PerTier { fast: 100, medium: 200, slow: 300 },
    ];
    spawn_row(&mut buffer, &rates, &rolls);
    assert_eq!(
        snapshot(&buffer),
        vec![
            vec![vec![DropSpeed::Fast], vec![]],
            vec![vec![DropSpeed::Medium, DropSpeed::Slow], vec![]],
            vec![vec![DropSpeed::Fast, DropSpeed::Medium, DropSpeed::Slow], vec![]],
            vec![vec![], vec![]],
        ]
    );
}

#[test]
fn spawn_row_skips_columns_without_a_roll_and_rolls_without_a_column() {
    let always = PerTier { fast: 1000, medium: 0, slow: 0 };
    let roll = PerTier { fast: 0, medium: 0, slow: 0 };
    let mut buffer = grid(3, 1);
    spawn_row(&mut buffer, &always, &vec![roll]);
    assert_eq!(snapshot(&buffer), vec![vec![vec![DropSpeed::Fast]], vec![vec![]], vec![vec![]]]);
    let mut buffer = grid(1, 1);
    spawn_row(&mut buffer, &always, &vec![roll, roll, roll]);
    assert_eq!(snapshot(&buffer), vec![vec![vec![DropSpeed::Fast]]]);
    let mut flat = grid(2, 0);
    spawn_row(&mut flat, &always, &vec![roll, roll]);
    assert_eq!(snapshot(&flat), vec![Vec::<Vec<DropSpeed>>::new(), Vec::new()]);
}

#[test]
fn spawn_row_does_not_double_a_tier_that_is_there() {
    let always = PerTier { fast: 1000, medium: 1000, slow: 1000 };
    let roll = PerTier { fast: 0, medium: 0, slow: 0 };
    let mut buffer = grid(1, 1);
    spawn(&mut buffer, 0, DropSpeed::Slow);
    spawn_row(&mut buffer, &always, &vec![roll]);
    assert_eq!(
        snapshot(&buffer),
        vec![vec![vec![DropSpeed::Slow, DropSpeed::Fast, DropSpeed::Medium]]]
    );
}

#[test]
fn new_simulator_has_waited_for_nothing() {
    let simulator = DropSimulator::new(DropConfig::rain());
    assert_eq!(simulator.config, DropConfig::rain());
    assert_eq!(simulator.phase, PerTier { fast: 0, medium: 0, slow: 0 });
}

#[test]
fn tiers_move_every_so_many_ticks() {
    let config = DropConfig {
        spawn_rate: PerTier { fast: 0, medium: 0, slow: 0 },
        speed_ratio: PerTier { fast: 1, medium: 2, slow: 3 },
    };
    let mut simulator = DropSimulator::new(config);
    let mut buffer = grid(1, 1);
    let mut seen = Vec::new();
    for _ in 0..6 {
        let due = simulator.due();
        seen.push((due.fast, due.medium, due.slow));
        simulator.tick(&mut buffer, &vec![]);
    }
    assert_eq!(
        seen,
        vec![
            (true, false, false),
            (true, true, false),
            (true, false, true),
            (true, true, false),
            (true, false, false),
            (true, true, true),
        ]
    );
    assert_eq!(simulator.phase, PerTier { fast: 0, medium: 0, slow: 0 });
    assert_eq!(simulator.config, config);
}

#[test]
fn phase_counts_the_ticks_waited() {
    let config = DropConfig {
        spawn_rate: PerTier { fast: 0, medium: 0, slow: 0 },
        speed_ratio: PerTier { fast: 4, medium: 2, slow: 3 },
    };
    let mut simulator = DropSimulator::new(config);
    let mut buffer = grid(1, 1);
    let mut phases = Vec::new();
    for _ in 0..5 {
        simulator.tick(&mut buffer, &vec![]);
        phases.push((simulator.phase.fast, simulator.phase.medium, simulator.phase.slow));
    }
    assert_eq!(phases, vec![(1, 1, 1), (2, 0, 2), (3, 1, 0), (0, 0, 1), (1, 1, 2)]);
}

#[test]
fn a_ratio_of_zero_moves_on_every_tick_like_a_ratio_of_one() {
    let config = DropConfig {
        spawn_rate: PerTier { fast: 0, medium: 0, slow: 0 },
        speed_ratio: PerTier { fast: 0, medium: 1, slow: u32::MAX },
    };
    let mut simulator = DropSimulator::new(config);
    let mut buffer = grid(1, 1);
    for tick in 1..=4u32 {
        assert_eq!(simulator.due(), PerTier { fast: true, medium: true, slow: false });
        simulator.tick(&mut buffer, &vec![]);
        assert_eq!(simulator.phase, PerTier { fast: 0, medium: 0, slow: tick });
    }
}

#[test]
fn a_count_at_its_end_does_not_overflow() {
    let config = DropConfig {
        spawn_rate: PerTier { fast: 0, medium: 0, slow: 0 },
        speed_ratio: PerTier { fast: 5, medium: u32::MAX, slow: 0 },
    };
    let mut simulator = DropSimulator {
        config,
        phase: PerTier { fast: u32::MAX, medium: u32::MAX - 1, slow: u32::MAX },
    };
    assert_eq!(simulator.due(), EVERYBODY);
    let mut buffer = grid(1, 1);
    simulator.tick(&mut buffer, &vec![]);
    assert_eq!(simulator.phase, PerTier { fast: 0, medium: 0, slow: 0 });
}

#[test]
fn a_slow_drop_falls_a_row_every_third_tick() {
    let config = DropConfig {
        spawn_rate: PerTier { fast: 0, medium: 0, slow: 0 },
        speed_ratio: PerTier { fast: 1, medium: 2, slow: 3 },
    };
    let mut simulator = DropSimulator::new(config);
    let mut buffer = grid(1, 4);
    spawn(&mut buffer, 0, DropSpeed::Slow);
    let mut rows = Vec::new();
    for _ in 0..9 {
        simulator.tick(&mut buffer, &vec![]);
        rows.push((0..4).find(|y| buffer.buf[0][*y].contains(DropSpeed::Slow)));
    }
    assert_eq!(
        rows,
        vec![Some(0), Some(0), Some(1), Some(1), Some(1), Some(2), Some(2), Some(2), Some(3)]
    );
}

#[test]
fn a_tick_moves_first_and_spawns_afterwards() {
    let config = DropConfig {
        spawn_rate: PerTier { fast: 1000, medium: 0, slow: 0 },
        speed_ratio: PerTier { fast: 1, medium: 1, slow: 1 },
    };
    let mut simulator = DropSimulator::new(config);
    let mut buffer = grid(1, 3);
    let roll = vec![PerTier { fast: 0, medium: 0, slow: 0 }];
    simulator.tick(&mut buffer, &roll);
    assert_eq!(column(&buffer, 0), vec![vec![DropSpeed::Fast], vec![], vec![]]);
    simulator.tick(&mut buffer, &roll);
    assert_eq!(column(&buffer, 0), vec![vec![DropSpeed::Fast], vec![DropSpeed::Fast], vec![]]);
    simulator.tick(&mut buffer, &vec![]);
    assert_eq!(column(&buffer, 0), vec![vec![], vec![DropSpeed::Fast], vec![DropSpeed::Fast]]);
}

#[test]
fn tick_keeps_the_shape_of_the_grid() {
    let mut simulator = DropSimulator::new(DropConfig {
        spawn_rate: PerTier { fast: 1000, medium: 1000, slow: 1000 },
        speed_ratio: PerTier { fast: 1, medium: 2, slow: 3 },
    });
    let mut buffer = grid(6, 5);
    let rolls = vec![PerTier { fast: 1, medium: 2, slow: 3 }; 6];
    for _ in 0..20 {
        simulator.tick(&mut buffer, &rolls);
        assert_eq!(buffer.buf.len(), 6);
        for x in 0..6 {
            assert_eq!(buffer.buf[x].len(), 5);
            for y in 0..5 {
                assert!(buffer.buf[x][y].len() <= 3);
            }
        }
    }
}

#[test]
fn the_effects_have_their_own_tuning() {
    assert_eq!(
        DropConfig::rain(),
        DropConfig {
            spawn_rate: PerTier { fast: 20, medium: 15, slow: 10 },
            speed_ratio: PerTier { fast: 1, medium: 2, slow: 3 },
        }
    );
    assert_eq!(
        DropConfig::snow(),
        DropConfig {
            spawn_rate: PerTier { fast: 8, medium: 12, slow: 16 },
            speed_ratio: PerTier { fast: 3, medium: 5, slow: 8 },
        }
    );
    assert_eq!(
        DropConfig::timer(),
        DropConfig {
            spawn_rate: PerTier { fast: 4, medium: 3, slow: 2 },
            speed_ratio: PerTier { fast: 2, medium: 3, slow: 4 },
        }
    );
}

#[test]
fn in_every_effect_a_slower_tier_moves_less_often() {
    for config in [DropConfig::rain(), DropConfig::snow(), DropConfig::timer()] {
        assert!(config.speed_ratio.fast >= 1);
        assert!(config.speed_ratio.fast < config.speed_ratio.medium);
        assert!(config.speed_ratio.medium < config.speed_ratio.slow);
    }
}

#[test]
fn per_tier_values_by_tier() {
    let values = PerTier { fast: 1u8, medium: 2, slow: 3 };
    assert_eq!(values.get(DropSpeed::Fast), Some(1));
    assert_eq!(values.get(DropSpeed::Medium), Some(2));
    assert_eq!(values.get(DropSpeed::Slow), Some(3));
    assert_eq!(values.get(DropSpeed::Absent), None);
    let set = PerTier { fast: true, medium: false, slow: true };
    assert!(set.contains(DropSpeed::Fast));
    assert!(!set.contains(DropSpeed::Medium));
    assert!(set.contains(DropSpeed::Slow));
    assert!(!set.contains(DropSpeed::Absent));
    assert!(!EVERYBODY.contains(DropSpeed::Absent));
    assert_eq!(values.clone(), values);
}
