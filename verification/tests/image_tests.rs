use taskchart::image::Image;

const BORDER: (u8, u8, u8) = (0x4c, 0x9d, 0xcb);
const GRID: (u8, u8, u8) = (0xd9, 0xea, 0xf4);
const WHITE: (u8, u8, u8) = (0xff, 0xff, 0xff);
const DARK: (u8, u8, u8) = (0xf1, 0xf6, 0xfa);

fn solid(width: usize, height: usize, r: u8, g: u8, b: u8) -> Image {
    let mut img = Image::new(width, height);
    for y in 0..height {
        for x in 0..width {
            img.set_color(x, y, r, g, b);
        }
    }
    img
}

#[test]
fn new_is_zero_filled() {
    let img = Image::new(3, 2);
    assert_eq!(img.width, 3);
    assert_eq!(img.height, 2);
    assert_eq!(img.buf.len(), 3 * 2 * 4);
    assert!(img.buf.iter().all(|&byte| byte == 0));
}

#[test]
fn set_then_get_color_round_trips() {
    let mut img = Image::new(4, 4);
    img.set_color(1, 2, 10, 20, 30);
    assert_eq!(img.get_color(1, 2), (10, 20, 30));
    assert_eq!(img.get_color(0, 0), (0, 0, 0));
    assert_eq!(img.get_color(2, 2), (0, 0, 0));
}

#[test]
fn set_color_stores_bgr_order() {
    let mut img = Image::new(1, 1);
    img.set_color(0, 0, 1, 2, 3);
    assert_eq!(img.buf[0], 3);
    assert_eq!(img.buf[1], 2);
    assert_eq!(img.buf[2], 1);
    assert_eq!(img.buf[3], 0);
}

#[test]
fn offsets_are_bottom_up() {
    let img = Image::new(3, 2);
    assert_eq!(img.get_offset(0, 1), 0);
    assert_eq!(img.get_offset(1, 1), 4);
    assert_eq!(img.get_offset(2, 1), 8);
    assert_eq!(img.get_offset(0, 0), 12);
    assert_eq!(img.get_offset(2, 0), 20);
}

#[test]
fn offsets_stay_in_range_and_disjoint() {
    let img = Image::new(3, 2);
    let mut seen: Vec<usize> = Vec::new();
    for y in 0..2 {
        for x in 0..3 {
            let offset = img.get_offset(x, y);
            assert!(offset + 4 <= 3 * 2 * 4);
            for &other in &seen {
                assert!(offset + 4 <= other || other + 4 <= offset);
            }
            seen.push(offset);
        }
    }
}

#[test]
fn from_fn_visits_every_coordinate() {
    let img = Image::from_fn(3, 3, |x, y| (x as u8, y as u8, (x + y) as u8));
    for y in 0..3 {
        for x in 0..3 {
            assert_eq!(img.get_color(x, y), (x as u8, y as u8, (x + y) as u8));
        }
    }
}

#[test]
fn grayscale_truncates_each_channel() {
    let mut img = Image::new(2, 1);
    img.set_color(0, 0, 255, 255, 255);
    assert_eq!(img.get_grayscale_color(0, 0), 63 + 127 + 63);
    img.set_color(1, 0, 100, 50, 25);
    assert_eq!(img.get_grayscale_color(1, 0), 25 + 25 + 6);
}

#[test]
fn is_white_boundary_is_exact() {
    let mut img = Image::new(2, 1);
    img.set_color(0, 0, 255, 254, 8);
    assert_eq!(img.get_grayscale_color(0, 0), 192);
    assert!(!img.is_white(0, 0));
    img.set_color(1, 0, 255, 254, 12);
    assert_eq!(img.get_grayscale_color(1, 0), 193);
    assert!(img.is_white(1, 0));
}

#[test]
fn is_edge_detects_disagreement() {
    let mut img = solid(3, 3, 0, 0, 0);
    assert!(!img.is_edge(0, 0));
    img.set_color(1, 1, 255, 255, 255);
    assert!(img.is_edge(0, 0));
    assert!(img.is_edge(1, 1));
}

#[test]
fn styled_output_shrinks_by_one() {
    let img = Image::new(5, 7);
    let styled = img.to_taskmgr_style();
    assert_eq!(styled.width, 4);
    assert_eq!(styled.height, 6);
    assert_eq!(styled.buf.len(), 4 * 6 * 4);
}

#[test]
fn styled_all_white_scenario() {
    let img = solid(4, 4, 255, 255, 255);
    let styled = img.to_taskmgr_style();
    assert_eq!(styled.width, 3);
    assert_eq!(styled.height, 3);
    assert_eq!(styled.get_color(0, 0), BORDER);
    assert_eq!(styled.get_color(1, 1), WHITE);
}

#[test]
fn styled_border_beats_grid() {
    // (0, 1) lies on the output border and on a grid column (0 % 50 == 0):
    // the border color must win.
    let img = solid(4, 4, 0, 0, 0);
    let styled = img.to_taskmgr_style();
    assert_eq!(styled.get_color(0, 1), BORDER);
    assert_eq!(styled.get_color(1, 0), BORDER);
}

#[test]
fn styled_grid_and_dark_cells() {
    let img = solid(53, 4, 0, 0, 0);
    let styled = img.to_taskmgr_style();
    assert_eq!(styled.width, 52);
    assert_eq!(styled.height, 3);
    // interior pixel on a grid column
    assert_eq!(styled.get_color(50, 1), GRID);
    // interior pixel off the grid, not white
    assert_eq!(styled.get_color(1, 1), DARK);
    assert_eq!(styled.get_color(49, 1), DARK);
}

#[test]
fn styled_marks_interior_edges() {
    let mut img = solid(5, 5, 0, 0, 0);
    img.set_color(2, 2, 255, 255, 255);
    let styled = img.to_taskmgr_style();
    // the 2x2 neighborhoods touching the white pixel disagree
    assert_eq!(styled.get_color(2, 2), BORDER);
    assert_eq!(styled.get_color(1, 1), BORDER);
    assert_eq!(styled.get_color(2, 1), BORDER);
}

#[test]
fn styled_twice_is_byte_identical() {
    let mut img = solid(6, 5, 40, 80, 120);
    img.set_color(3, 2, 255, 255, 255);
    img.set_color(4, 1, 200, 210, 220);
    let first = img.to_taskmgr_style();
    let second = img.to_taskmgr_style();
    assert_eq!(first.width, second.width);
    assert_eq!(first.height, second.height);
    assert_eq!(first.buf, second.buf);
}
