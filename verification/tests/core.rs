use colony_core::agent::{Robot, RobotType};
use colony_core::base::Base;
use colony_core::fusion::fuse_cells;
use colony_core::game::{
    classify_sample, generate_map, not_near_a_wall_and_valid, Game, CLEARING_SIDE,
};
use colony_core::grid::{Position, TerrainGrid};
use colony_core::terrain::Terrain;

fn grid_cells(g: &TerrainGrid) -> Vec<Terrain> {
    let mut out = Vec::new();
    for y in 0..g.height() {
        for x in 0..g.width() {
            out.push(g.get_cell(x, y).unwrap());
        }
    }
    out
}

#[test]
fn fuse_cell_precedence_table() {
    // any Ground/resource disagreement resolves to Ground, in this order
    assert_eq!(fuse_cells(Terrain::Science, Terrain::Ground), Terrain::Ground);
    assert_eq!(fuse_cells(Terrain::Ground, Terrain::Science), Terrain::Ground);
    assert_eq!(fuse_cells(Terrain::Energy, Terrain::Ground), Terrain::Ground);
    assert_eq!(fuse_cells(Terrain::Ground, Terrain::Energy), Terrain::Ground);
    assert_eq!(fuse_cells(Terrain::Ore, Terrain::Ground), Terrain::Ground);
    assert_eq!(fuse_cells(Terrain::Ground, Terrain::Ore), Terrain::Ground);
    // otherwise canonical knowledge wins
    assert_eq!(fuse_cells(Terrain::Wall, Terrain::Ground), Terrain::Wall);
    assert_eq!(fuse_cells(Terrain::Ore, Terrain::Science), Terrain::Ore);
    // the agent only fills gaps
    assert_eq!(fuse_cells(Terrain::Void, Terrain::Ore), Terrain::Ore);
    assert_eq!(fuse_cells(Terrain::Void, Terrain::Mountain), Terrain::Mountain);
    // two unknowns stay unknown
    assert_eq!(fuse_cells(Terrain::Void, Terrain::Void), Terrain::Void);
}

#[test]
fn fusion_ground_beats_fresh_ore() {
    // canonical Ground, agent reports Ore: the asymmetric rule keeps Ground
    let mut base = Base::new(1, 1, 0, 0);
    base.set_shared_map(TerrainGrid::new(1, 1, Terrain::Ground));
    let mut robot = Robot::new(0, 0, RobotType::Harvester, 1, 1);
    robot.observe_cell(Position { x: 0, y: 0 }, Terrain::Ore);
    base.merge_map(&mut robot);
    assert_eq!(base.shared_map().get_cell(0, 0), Some(Terrain::Ground));
    assert_eq!(base.resource_queue().len(), 0);
    assert_eq!(base.detected_resources().len(), 0);
}

#[test]
fn fusion_discovers_ore_on_void_exactly_once() {
    let mut base = Base::new(1, 1, 0, 0);
    let mut robot = Robot::new(0, 0, RobotType::Harvester, 1, 1);
    robot.observe_cell(Position { x: 0, y: 0 }, Terrain::Ore);
    base.merge_map(&mut robot);
    assert_eq!(base.shared_map().get_cell(0, 0), Some(Terrain::Ore));
    assert_eq!(base.resource_queue().len(), 1);
    assert_eq!(base.resource_queue()[0], Position { x: 0, y: 0 });
    // a second fusion of the unchanged pair enqueues nothing
    base.merge_map(&mut robot);
    assert_eq!(base.resource_queue().len(), 1);
    assert_eq!(base.detected_resources().len(), 1);
}

#[test]
fn fusion_identity_on_equal_grids() {
    let mut base = Base::new(3, 2, 0, 0);
    let mut truth = TerrainGrid::new(3, 2, Terrain::Ground);
    truth.set_cell(Position { x: 1, y: 0 }, Terrain::Wall);
    truth.set_cell(Position { x: 2, y: 1 }, Terrain::Mountain);
    base.set_shared_map(truth.duplicate());
    let mut robot = Robot::new(0, 0, RobotType::Scout, 3, 2);
    robot.set_known_map(truth.duplicate());
    base.merge_map(&mut robot);
    assert_eq!(grid_cells(base.shared_map()), grid_cells(&truth));
    assert_eq!(grid_cells(robot.known_map()), grid_cells(&truth));
}

#[test]
fn fusion_idempotent_grid_and_queues() {
    let mut base = Base::new(4, 1, 0, 0);
    let mut robot = Robot::new(0, 0, RobotType::Scout, 4, 1);
    robot.observe_cell(Position { x: 0, y: 0 }, Terrain::Ore);
    robot.observe_cell(Position { x: 2, y: 0 }, Terrain::Energy);
    robot.observe_cell(Position { x: 3, y: 0 }, Terrain::Science);
    base.merge_map(&mut robot);
    let first = grid_cells(base.shared_map());
    let rq = base.resource_queue().clone();
    let sq = base.science_queue().clone();
    let seen = base.detected_resources().clone();
    base.merge_map(&mut robot);
    assert_eq!(grid_cells(base.shared_map()), first);
    assert_eq!(base.resource_queue(), &rq);
    assert_eq!(base.science_queue(), &sq);
    assert_eq!(base.detected_resources(), &seen);
}

#[test]
fn discovery_is_permanent_even_after_pop() {
    let mut base = Base::new(1, 1, 0, 0);
    let mut robot = Robot::new(0, 0, RobotType::Harvester, 1, 1);
    robot.observe_cell(Position { x: 0, y: 0 }, Terrain::Energy);
    base.merge_map(&mut robot);
    assert_eq!(base.pop_resource_queue(), Some(Position { x: 0, y: 0 }));
    assert_eq!(base.pop_resource_queue(), None);
    // the site is still on the map; fusing again must not re-enqueue it
    base.merge_map(&mut robot);
    assert_eq!(base.resource_queue().len(), 0);
    assert_eq!(base.detected_resources().len(), 1);
}

#[test]
fn discovery_queues_are_fifo_and_disjoint() {
    let mut base = Base::new(4, 1, 0, 0);
    let mut robot = Robot::new(0, 0, RobotType::Scout, 4, 1);
    robot.observe_cell(Position { x: 0, y: 0 }, Terrain::Ore);
    robot.observe_cell(Position { x: 2, y: 0 }, Terrain::Energy);
    robot.observe_cell(Position { x: 3, y: 0 }, Terrain::Science);
    base.merge_map(&mut robot);
    assert_eq!(
        base.resource_queue().as_slice(),
        &[Position { x: 0, y: 0 }, Position { x: 2, y: 0 }]
    );
    assert_eq!(base.science_queue().as_slice(), &[Position { x: 3, y: 0 }]);
    assert_eq!(base.detected_resources().len(), 3);
    assert_eq!(base.pop_resource_queue(), Some(Position { x: 0, y: 0 }));
    assert_eq!(base.pop_resource_queue(), Some(Position { x: 2, y: 0 }));
    assert_eq!(base.pop_resource_queue(), None);
    assert_eq!(base.pop_science_queue(), Some(Position { x: 3, y: 0 }));
    assert_eq!(base.pop_science_queue(), None);
}

#[test]
fn fusion_pass_order_is_observable() {
    // first rover reports Ground, second reports Ore at the same cell:
    // after the pass the cell is Ground and nothing was enqueued
    let mut base = Base::new(1, 1, 0, 0);
    let mut r_ground = Robot::new(0, 0, RobotType::Scout, 1, 1);
    r_ground.observe_cell(Position { x: 0, y: 0 }, Terrain::Ground);
    let mut r_ore = Robot::new(0, 0, RobotType::Scout, 1, 1);
    r_ore.observe_cell(Position { x: 0, y: 0 }, Terrain::Ore);
    let mut robots = vec![r_ground, r_ore];
    base.merge_maps(&mut robots);
    assert_eq!(base.shared_map().get_cell(0, 0), Some(Terrain::Ground));
    assert_eq!(base.resource_queue().len(), 0);

    // in the opposite order the Ore is seen first, so it is discovered,
    // then the Ground report consumes it
    let mut base2 = Base::new(1, 1, 0, 0);
    let mut r_ore2 = Robot::new(0, 0, RobotType::Scout, 1, 1);
    r_ore2.observe_cell(Position { x: 0, y: 0 }, Terrain::Ore);
    let mut r_ground2 = Robot::new(0, 0, RobotType::Scout, 1, 1);
    r_ground2.observe_cell(Position { x: 0, y: 0 }, Terrain::Ground);
    let mut robots2 = vec![r_ore2, r_ground2];
    base2.merge_maps(&mut robots2);
    assert_eq!(base2.shared_map().get_cell(0, 0), Some(Terrain::Ground));
    assert_eq!(base2.resource_queue().len(), 1);
    // each rover leaves the pass agreeing with the canonical grid as it
    // stood right after its own fusion
    assert_eq!(robots2[0].known_map().get_cell(0, 0), Some(Terrain::Ore));
    assert_eq!(robots2[1].known_map().get_cell(0, 0), Some(Terrain::Ground));
}

#[test]
fn dock_credits_ore_once() {
    let mut base = Base::new(2, 2, 0, 0);
    let mut robot = Robot::new(0, 0, RobotType::Harvester, 2, 2);
    robot.set_resource(Terrain::Ore);
    base.release_energy_and_merge(&mut robot);
    assert_eq!(base.ores(), 1);
    assert_eq!(robot.resource(), Terrain::Void);
    assert!(!robot.is_carrying());
    // docking again without moving must not credit a second time
    base.release_energy_and_merge(&mut robot);
    assert_eq!(base.ores(), 1);
}

#[test]
fn dock_away_from_base_is_a_no_op() {
    let mut base = Base::new(3, 3, 1, 1);
    let mut robot = Robot::new(0, 0, RobotType::Harvester, 3, 3);
    robot.set_resource(Terrain::Energy);
    base.release_energy_and_merge(&mut robot);
    assert_eq!(base.energy(), 0);
    assert_eq!(robot.resource(), Terrain::Energy);
}

#[test]
fn dock_credits_each_cargo_kind() {
    let mut base = Base::new(1, 1, 0, 0);
    let mut r = Robot::new(0, 0, RobotType::Harvester, 1, 1);
    r.set_resource(Terrain::Energy);
    base.release_energy_and_merge(&mut r);
    r.set_resource(Terrain::Science);
    base.release_energy_and_merge(&mut r);
    r.set_resource(Terrain::Ore);
    base.release_energy_and_merge(&mut r);
    assert_eq!((base.ores(), base.energy(), base.science()), (1, 1, 1));
}

#[test]
fn dock_clears_goal_of_laden_non_scout() {
    let mut base = Base::new(1, 1, 0, 0);
    let mut robot = Robot::new(0, 0, RobotType::Harvester, 1, 1);
    robot.set_goal(Some(Position { x: 0, y: 0 }));
    robot.set_resource(Terrain::Ore);
    base.release_energy_and_merge(&mut robot);
    assert_eq!(robot.goal(), None);
    // an empty-handed non-Scout keeps its goal
    let mut robot2 = Robot::new(0, 0, RobotType::Scientist, 1, 1);
    robot2.set_goal(Some(Position { x: 0, y: 0 }));
    base.release_energy_and_merge(&mut robot2);
    assert_eq!(robot2.goal(), Some(Position { x: 0, y: 0 }));
}

#[test]
fn dock_resets_scout_counter() {
    let mut base = Base::new(2, 2, 0, 0);
    let mut robot = Robot::new(0, 0, RobotType::Scout, 2, 2);
    robot.set_void_terrains_discovered(5);
    robot.set_resource(Terrain::Science);
    base.release_energy_and_merge(&mut robot);
    assert_eq!(robot.void_terrains_discovered(), 0);
    assert_eq!(base.science(), 1);
    // the reset applies with or without cargo
    let mut robot2 = Robot::new(0, 0, RobotType::Scout, 2, 2);
    robot2.set_void_terrains_discovered(5);
    base.release_energy_and_merge(&mut robot2);
    assert_eq!(robot2.void_terrains_discovered(), 0);
}

fn funded_game(missions: &[RobotType], carries: &[Terrain]) -> Game {
    // rovers standing on the base deliver the listed cargo, funding the
    // spawn balancer without touching any internal counter directly
    let map = TerrainGrid::new(5, 5, Terrain::Ground);
    let mut game = Game::new(map, 7);
    let c = game.base().coordinates();
    for (k, m) in missions.iter().enumerate() {
        let mut r = Robot::new(c.x, c.y, *m, 5, 5);
        if k < carries.len() {
            r.set_resource(carries[k]);
        }
        game.add_robot(r);
    }
    for k in 0..missions.len() {
        game.settle_robot(k);
    }
    game
}

#[test]
fn spawn_arithmetic_deducts_and_escalates() {
    let mut game = funded_game(
        &[RobotType::Scout, RobotType::Harvester],
        &[Terrain::Ore, Terrain::Energy],
    );
    assert_eq!((game.base().ores(), game.base().energy()), (1, 1));
    assert_eq!(game.resources_to_create(), 1);
    game.create_robot();
    assert_eq!(game.robots().len(), 3);
    assert_eq!((game.base().ores(), game.base().energy()), (0, 0));
    assert_eq!(game.resources_to_create(), 2);
    // a second attempt cannot afford the escalated price and changes nothing
    game.create_robot();
    assert_eq!(game.robots().len(), 3);
    assert_eq!(game.resources_to_create(), 2);
}

#[test]
fn spawn_needs_both_counters() {
    // one ore alone funds nothing
    let mut game = funded_game(&[RobotType::Scout], &[Terrain::Ore]);
    game.create_robot();
    assert_eq!(game.robots().len(), 1);
    assert_eq!(game.base().ores(), 1);
    assert_eq!(game.resources_to_create(), 1);
}

#[test]
fn spawn_tie_goes_to_scout() {
    let mut game = funded_game(
        &[RobotType::Scout, RobotType::Harvester, RobotType::Scientist],
        &[Terrain::Ore, Terrain::Energy],
    );
    game.create_robot();
    assert_eq!(game.robots().len(), 4);
    assert_eq!(game.robots()[3].mission(), RobotType::Scout);
    assert_eq!(game.count_robots(RobotType::Scout), 2);
}

#[test]
fn spawn_picks_strictly_fewest() {
    let mut game = funded_game(
        &[RobotType::Scout, RobotType::Scout, RobotType::Scientist],
        &[Terrain::Ore, Terrain::Energy],
    );
    game.create_robot();
    assert_eq!(game.robots()[3].mission(), RobotType::Harvester);
}

#[test]
fn spawn_tie_scientist_over_harvester() {
    let mut game = funded_game(
        &[RobotType::Scout, RobotType::Scout],
        &[Terrain::Ore, Terrain::Energy],
    );
    game.create_robot();
    assert_eq!(game.robots()[2].mission(), RobotType::Scientist);
}

#[test]
fn spawned_rover_starts_blank_at_base() {
    let mut game = funded_game(
        &[RobotType::Scout, RobotType::Harvester],
        &[Terrain::Ore, Terrain::Energy],
    );
    game.create_robot();
    let c = game.base().coordinates();
    let r = &game.robots()[2];
    assert_eq!(r.position(), c);
    assert_eq!(r.resource(), Terrain::Void);
    assert_eq!(r.void_terrains_discovered(), 0);
    assert_eq!(r.known_map().get_cell(0, 0), Some(Terrain::Void));
    assert_eq!(r.known_map().width(), 5);
    assert_eq!(r.known_map().height(), 5);
}

#[test]
fn settling_the_same_rover_twice_credits_once() {
    let mut game = funded_game(&[RobotType::Harvester], &[Terrain::Ore]);
    assert_eq!(game.base().ores(), 1);
    game.settle_robot(0);
    game.settle_robot(0);
    assert_eq!(game.base().ores(), 1);
    assert_eq!(game.robots()[0].resource(), Terrain::Void);
}

#[test]
fn classify_thresholds_exact() {
    assert_eq!(classify_sample(0), Terrain::Ground);
    assert_eq!(classify_sample(1), Terrain::Energy);
    assert_eq!(classify_sample(4999), Terrain::Energy);
    assert_eq!(classify_sample(5000), Terrain::Ore);
    assert_eq!(classify_sample(9999), Terrain::Ore);
    assert_eq!(classify_sample(10000), Terrain::Ground);
    assert_eq!(classify_sample(249999), Terrain::Ground);
    assert_eq!(classify_sample(250000), Terrain::Wall);
    assert_eq!(classify_sample(499999), Terrain::Wall);
    assert_eq!(classify_sample(500000), Terrain::Mountain);
}

#[test]
fn clearing_is_ground_whatever_the_samples() {
    // mountains everywhere: the centered clearing must still be Ground
    let w = 11usize;
    let h = 9usize;
    let samples = vec![600000u64; w * h];
    let m = generate_map(w, h, &samples);
    let half = CLEARING_SIDE / 2;
    let (cx, cy) = (w / 2, h / 2);
    for y in 0..h {
        for x in 0..w {
            let dx = if x >= cx { x - cx } else { cx - x };
            let dy = if y >= cy { y - cy } else { cy - y };
            let expected = if dx <= half && dy <= half {
                Terrain::Ground
            } else {
                Terrain::Mountain
            };
            assert_eq!(m.get_cell(x, y), Some(expected));
        }
    }
}

#[test]
fn clearing_is_clipped_on_small_worlds() {
    let samples = vec![300000u64; 9];
    let m = generate_map(3, 3, &samples);
    for y in 0..3 {
        for x in 0..3 {
            assert_eq!(m.get_cell(x, y), Some(Terrain::Ground));
        }
    }
}

#[test]
fn generated_map_keeps_classified_cells() {
    let w = 9usize;
    let h = 9usize;
    let mut samples = vec![300000u64; w * h];
    samples[0] = 2000; // Energy at (0, 0)
    samples[8] = 7000; // Ore at (8, 0)
    let m = generate_map(w, h, &samples);
    assert_eq!(m.get_cell(0, 0), Some(Terrain::Energy));
    assert_eq!(m.get_cell(8, 0), Some(Terrain::Ore));
    assert_eq!(m.get_cell(1, 0), Some(Terrain::Wall));
    assert_eq!(m.get_cell(4, 4), Some(Terrain::Ground));
}

#[test]
fn spawn_spot_rejects_walls_and_non_ground() {
    let mut m = TerrainGrid::new(3, 3, Terrain::Ground);
    assert!(not_near_a_wall_and_valid(3, 3, 1, 1, &m));
    m.set_cell(Position { x: 0, y: 0 }, Terrain::Wall);
    assert!(!not_near_a_wall_and_valid(3, 3, 1, 1, &m));
    assert!(!not_near_a_wall_and_valid(3, 3, 0, 1, &m));
    // the wall cell itself is not Ground
    assert!(!not_near_a_wall_and_valid(3, 3, 0, 0, &m));
    // a corner far from the wall is fine
    assert!(not_near_a_wall_and_valid(3, 3, 2, 2, &m));
    // out of range is never valid
    assert!(!not_near_a_wall_and_valid(3, 3, 3, 1, &m));
}

#[test]
fn grid_access_is_safe_and_bounded() {
    let mut m = TerrainGrid::new(2, 3, Terrain::Void);
    assert_eq!(m.width(), 2);
    assert_eq!(m.height(), 3);
    assert_eq!(m.get_cell(2, 0), None);
    assert_eq!(m.get_cell(0, 3), None);
    m.set_cell(Position { x: 5, y: 5 }, Terrain::Wall);
    for y in 0..3 {
        for x in 0..2 {
            assert_eq!(m.get_cell(x, y), Some(Terrain::Void));
        }
    }
    m.set_cell(Position { x: 1, y: 2 }, Terrain::Ore);
    assert_eq!(m.get_cell(1, 2), Some(Terrain::Ore));
    assert_eq!(m.get_cell(0, 2), Some(Terrain::Void));
}

#[test]
fn terrain_encoding_round_trip() {
    let kinds = [
        Terrain::Void,
        Terrain::Ground,
        Terrain::Wall,
        Terrain::Mountain,
        Terrain::Ore,
        Terrain::Energy,
        Terrain::Science,
        Terrain::Robot,
        Terrain::CarryingRobot,
    ];
    for a in kinds.iter() {
        assert!(a.is_char(Some(a.to_char())));
        assert!(!a.is_char(None));
        for b in kinds.iter() {
            if a != b {
                assert_ne!(a.to_char(), b.to_char());
                assert!(!a.is_char(Some(b.to_char())));
            }
        }
    }
}

#[test]
fn base_counter_helpers_increment() {
    let mut base = Base::new(1, 1, 0, 0);
    base.add_ores();
    base.add_ores();
    base.add_energy();
    base.add_science();
    assert_eq!((base.ores(), base.energy(), base.science()), (2, 1, 1));
    assert_eq!(base.coordinates(), Position { x: 0, y: 0 });
}

#[test]
fn observe_and_move_drive_a_rover() {
    let mut samples = vec![0u64; 81];
    samples[9] = 7000; // Ore at (0, 1), outside the clearing of a 9x9 world
    let map = generate_map(9, 9, &samples);
    let mut game = Game::new(map, 1);
    game.add_robot(Robot::new(4, 4, RobotType::Harvester, 9, 9));
    game.set_robot_position(0, Position { x: 0, y: 1 });
    assert_eq!(game.robots()[0].position(), Position { x: 0, y: 1 });
    game.observe(0, 0, 1);
    assert_eq!(game.robots()[0].known_map().get_cell(0, 1), Some(Terrain::Ore));
    game.merge_all();
    assert_eq!(game.base().shared_map().get_cell(0, 1), Some(Terrain::Ore));
    assert_eq!(game.base().resource_queue().len(), 1);
}
