use trippy_ants::config::{GridTopology, WorldConfig};
use trippy_ants::simulation::Simulation;

fn config(wall: Option<i32>) -> WorldConfig<i32, i32> {
    WorldConfig { wall_value: wall, topology: GridTopology::Torus, decay_factor: 3 }
}

#[test]
fn new_simulation_has_two_filled_grids() {
    let sim = Simulation::new(64, 4, &config(None), 5);
    assert_eq!(sim.width, 64);
    assert_eq!(sim.height, 4);
    assert!(sim.read_buffer.cells().iter().all(|&c| c == 5));
    assert!(sim.write_buffer.cells().iter().all(|&c| c == 5));
    assert_eq!(sim.decay_factor, 3);
}

#[test]
fn wall_value_is_applied_to_the_border_only() {
    let mut sim = Simulation::new(5, 4, &config(Some(9)), 1);
    sim.apply_bc();
    for y in 0..4i16 {
        for x in 0..5i16 {
            let border = x == 0 || x == 4 || y == 0 || y == 3;
            assert_eq!(*sim.write_buffer.cell(x, y), if border { 9 } else { 1 });
        }
    }
    assert!(sim.read_buffer.cells().iter().all(|&c| c == 1));
}

#[test]
fn no_wall_value_leaves_grid_alone() {
    let mut sim = Simulation::new(5, 4, &config(None), 1);
    sim.apply_bc();
    assert!(sim.write_buffer.cells().iter().all(|&c| c == 1));
}

#[test]
fn agents_deposit_in_order_with_wrapping() {
    let mut sim = Simulation::new(5, 4, &config(None), 0);
    let deposits = [(1i16, 1i16, 4i32), (6, 5, 3), (-4, -3, 10), (2, 2, 7)];
    // values accumulate and are clamped to 12, like pheromone levels clamped to a range
    sim.apply_agents(&deposits, |cell: i32, value: i32| (cell + value).clamp(-12, 12));
    assert_eq!(*sim.write_buffer.cell(1, 1), 12);
    assert_eq!(*sim.write_buffer.cell(2, 2), 7);
    assert_eq!(sim.write_buffer.cells().iter().filter(|&&c| c != 0).count(), 2);
}

#[test]
fn swap_exchanges_buffers() {
    let mut sim = Simulation::new(5, 4, &config(Some(2)), 0);
    sim.apply_bc();
    sim.swap_buffers();
    assert_eq!(*sim.read_buffer.cell(0, 0), 2);
    assert_eq!(*sim.write_buffer.cell(0, 0), 0);
    sim.swap_buffers();
    assert_eq!(*sim.read_buffer.cell(0, 0), 0);
    assert_eq!(*sim.write_buffer.cell(0, 0), 2);
}

#[test]
fn update_config_changes_parameters_and_topology() {
    let mut sim = Simulation::new(5, 4, &config(None), 0);
    *sim.read_buffer.cell_mut(0, 0) = 1;
    let new_config = WorldConfig { wall_value: Some(-1), topology: GridTopology::Plane, decay_factor: 7 };
    sim.update_config(&new_config);
    assert_eq!(sim.wall_value, Some(-1));
    assert_eq!(sim.decay_factor, 7);
    assert_eq!(*sim.read_buffer.cell(-1, -1), 1);
    assert_eq!(sim.write_buffer.index(-1, -1), 0);
}

#[test]
fn simulation_blur_uses_decay_factor() {
    let mut sim = Simulation::new(64, 3, &config(None), 1);
    sim.blur(|t: [i32; 3], m: [i32; 3], b: [i32; 3], decay: i32| {
        (t.iter().sum::<i32>() + m.iter().sum::<i32>() + b.iter().sum::<i32>()) * decay
    });
    assert!(sim.write_buffer.cells().iter().all(|&c| c == 27));
}
