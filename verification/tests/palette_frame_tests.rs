use trippy_ants::config::GridTopology;
use trippy_ants::frame::Frame;
use trippy_ants::grid::Grid;
use trippy_ants::palette::{pack_rgba, unpack_rgba, Palette};

#[test]
fn packing_matches_little_endian_bytes() {
    assert_eq!(pack_rgba(0x11, 0x22, 0x33, 0xff), 0xff33_2211);
    assert_eq!(pack_rgba(1, 2, 3, 4), u32::from_le_bytes([1, 2, 3, 4]));
    assert_eq!(unpack_rgba(0xff33_2211), [0x11, 0x22, 0x33, 0xff]);
    assert_eq!(unpack_rgba(0x0403_0201), 0x0403_0201u32.to_le_bytes());
    assert_eq!(unpack_rgba(pack_rgba(9, 8, 7, 6)), [9, 8, 7, 6]);
}

#[test]
fn palette_tables_are_built_per_index() {
    let palette = Palette::<4>::new(|i: usize| [i as u8, 0, 0], |i: usize| [0, 0, 10 * i as u8]);
    assert_eq!(palette.get_color(false, 0), 0xff00_0000);
    assert_eq!(palette.get_color(false, 2), 0xff00_0002);
    assert_eq!(palette.get_color(true, 3), 0xff1e_0000);
}

#[test]
fn palette_clips_to_last_color() {
    let palette = Palette::<4>::new(|i: usize| [i as u8, 0, 0], |i: usize| [0, i as u8, 0]);
    assert_eq!(palette.get_color(false, 4), 0xff00_0003);
    assert_eq!(palette.get_color(false, usize::MAX), 0xff00_0003);
    assert_eq!(palette.get_color(true, 100), 0xff00_0300);
}

#[test]
fn frame_update_writes_rgba_bytes() {
    let frame = Frame::new(4, 3, 48);
    let mut grid = Grid::new(4, 3, GridTopology::Plane, 0u32);
    *grid.cell_mut(1, 0) = 0x4433_2211;
    *grid.cell_mut(3, 2) = 0xff00_00ff;
    let mut buffer = vec![7u8; 48];
    frame.update(&mut buffer, &grid, |cell: u32| cell);
    assert_eq!(&buffer[0..4], &[0, 0, 0, 0]);
    assert_eq!(&buffer[4..8], &[0x11, 0x22, 0x33, 0x44]);
    assert_eq!(&buffer[44..48], &[0xff, 0, 0, 0xff]);
}

#[test]
fn frame_update_leaves_incomplete_row_alone() {
    let frame = Frame::new(4, 3, 48);
    let grid = Grid::new(4, 3, GridTopology::Plane, 0x0101_0101u32);
    let mut buffer = vec![7u8; 20];
    frame.update(&mut buffer, &grid, |cell: u32| cell);
    assert!(buffer[..16].iter().all(|&b| b == 1));
    assert!(buffer[16..].iter().all(|&b| b == 7));
}

#[test]
fn rgb_bytes_drop_alpha() {
    let frame = Frame::new(2, 1, 8);
    let rgba = [1u8, 2, 3, 4, 5, 6, 7, 8, 9];
    assert_eq!(frame.rgb_bytes(&rgba), vec![1, 2, 3, 5, 6, 7]);
    assert!(frame.rgb_bytes(&[]).is_empty());
}
