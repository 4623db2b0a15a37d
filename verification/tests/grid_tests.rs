use trippy_ants::config::GridTopology;
use trippy_ants::grid::{map_coord, Grid};

fn numbered(width: u16, height: u16, topology: GridTopology) -> Grid<i32> {
    let mut grid = Grid::new(width, height, topology, 0);
    for y in 0..height {
        for x in 0..width {
            *grid.cell_mut(x as i16, y as i16) = (y as i32) * 1000 + x as i32;
        }
    }
    grid
}

#[test]
fn torus_wraps_coordinates() {
    assert_eq!(map_coord(-1, 10, GridTopology::Torus), 9);
    assert_eq!(map_coord(10, 10, GridTopology::Torus), 0);
    assert_eq!(map_coord(23, 10, GridTopology::Torus), 3);
    assert_eq!(map_coord(-21, 10, GridTopology::Torus), 9);
    assert_eq!(map_coord(-20, 10, GridTopology::Torus), 0);
    assert_eq!(map_coord(i16::MIN, 3, GridTopology::Torus), 1);
    assert_eq!(map_coord(4, 10, GridTopology::Torus), 4);
}

#[test]
fn plane_clamps_coordinates() {
    assert_eq!(map_coord(-1, 10, GridTopology::Plane), 0);
    assert_eq!(map_coord(i16::MIN, 10, GridTopology::Plane), 0);
    assert_eq!(map_coord(10, 10, GridTopology::Plane), 9);
    assert_eq!(map_coord(i16::MAX, 10, GridTopology::Plane), 9);
    assert_eq!(map_coord(5, 10, GridTopology::Plane), 5);
}

#[test]
fn new_grid_is_filled() {
    let grid = Grid::new(4, 3, GridTopology::Plane, 7u8);
    assert_eq!(grid.cells().len(), 12);
    assert!(grid.cells().iter().all(|&c| c == 7));
}

#[test]
fn index_follows_topology() {
    let torus = Grid::new(5, 4, GridTopology::Torus, 0u8);
    assert_eq!(torus.index(0, 0), 0);
    assert_eq!(torus.index(4, 3), 19);
    assert_eq!(torus.index(-1, 0), 4);
    assert_eq!(torus.index(0, -1), 15);
    assert_eq!(torus.index(5, 4), 0);
    let plane = Grid::new(5, 4, GridTopology::Plane, 0u8);
    assert_eq!(plane.index(-1, 0), 0);
    assert_eq!(plane.index(7, 9), 19);
    assert_eq!(plane.index(2, 1), 7);
}

#[test]
fn rows_and_cells() {
    let grid = numbered(4, 3, GridTopology::Torus);
    assert_eq!(grid.row(1).unwrap(), &[1000, 1001, 1002, 1003]);
    assert_eq!(grid.row(2).unwrap(), &[2000, 2001, 2002, 2003]);
    assert!(grid.row(3).is_none());
    assert_eq!(*grid.cell(1, 2), 2001);
    assert_eq!(*grid.cell(-1, -1), 2003);
    assert_eq!(grid.map_row(-1), 2);
    assert_eq!(grid.map_col(4), 0);
}

#[test]
fn topology_can_be_changed() {
    let mut grid = numbered(4, 3, GridTopology::Torus);
    assert_eq!(*grid.cell(-1, 0), 3);
    grid.set_topology(GridTopology::Plane);
    assert_eq!(*grid.cell(-1, 0), 0);
}

#[test]
fn blur_uses_wrapped_neighbourhood() {
    let read = numbered(64, 3, GridTopology::Torus);
    let mut write = Grid::new(64, 3, GridTopology::Torus, 0);
    // the kernel reports the top-left, centre and bottom-right neighbours
    write.blur(&read, 1, |top: [i32; 3], mid: [i32; 3], bot: [i32; 3], scale: i32| {
        scale * (top[0] * 1_000_000 + mid[1] + bot[2] * 3)
    });
    // cell (0, 0): top-left is (63, 2), bottom-right is (1, 1)
    assert_eq!(*write.cell(0, 0), 2063 * 1_000_000 + 0 + 1001 * 3);
    // cell (10, 1): interior
    assert_eq!(*write.cell(10, 1), 9 * 1_000_000 + 1010 + 2011 * 3);
    // cell (63, 2): bottom-right wraps to (0, 0)
    assert_eq!(*write.cell(63, 2), 1062 * 1_000_000 + 2063 + 0);
}

#[test]
fn blur_clamps_on_plane() {
    let read = numbered(64, 3, GridTopology::Plane);
    let mut write = Grid::new(64, 3, GridTopology::Plane, 0);
    write.blur(&read, 2, |top: [i32; 3], _mid: [i32; 3], _bot: [i32; 3], scale: i32| {
        scale * top[0]
    });
    // top-left neighbour of (0, 0) on a plane is (0, 0) itself
    assert_eq!(*write.cell(0, 0), 0);
    assert_eq!(*write.cell(5, 2), 2 * 1004);
}

#[test]
fn blur_with_gaussian_weights() {
    let mut read = Grid::new(64, 3, GridTopology::Torus, 0.0f32);
    *read.cell_mut(5, 1) = 16.0;
    let mut write = Grid::new(64, 3, GridTopology::Torus, 0.0f32);
    write.blur(&read, 0.5, |t: [f32; 3], m: [f32; 3], b: [f32; 3], decay: f32| {
        let corners = t[0] + t[2] + b[0] + b[2];
        let sides = t[1] + m[0] + b[1] + m[2];
        (corners / 16.0 + sides / 8.0 + m[1] / 4.0) * decay
    });
    assert_eq!(*write.cell(5, 1), 2.0);
    assert_eq!(*write.cell(4, 1), 1.0);
    assert_eq!(*write.cell(4, 0), 0.5);
    assert_eq!(*write.cell(7, 1), 0.0);
}
