use slice_n_shuffle::{compute_border_abs_diff, Direction, Image, TileView};

// 2 x 2 image:
//   (0,0) = [10, 20, 30, 40]   (1,0) = [13, 18, 30, 50]
//   (0,1) = [0, 0, 0, 0]       (1,1) = [255, 255, 255, 255]
fn sample() -> Image {
    let data = vec![
        10, 20, 30, 40, 13, 18, 30, 50, //
        0, 0, 0, 0, 255, 255, 255, 255,
    ];
    Image::from_raw(2, 2, data).unwrap()
}

fn tile(x: u32, y: u32, width: u32, height: u32) -> TileView {
    TileView { x, y, width, height }
}

#[test]
fn border_right_single_pixels() {
    let img = sample();
    let c = compute_border_abs_diff(&img, &tile(0, 0, 1, 1), &tile(1, 0, 1, 1), Direction::Right);
    assert_eq!(c, 3 + 2 + 0 + 10);
}

#[test]
fn border_down_rows() {
    let img = sample();
    // row 0 against row 1
    let c = compute_border_abs_diff(&img, &tile(0, 0, 2, 1), &tile(0, 1, 2, 1), Direction::Down);
    assert_eq!(c, (10 + 20 + 30 + 40) + (242 + 237 + 225 + 205));
}

#[test]
fn border_up_compares_top_with_bottom() {
    let img = sample();
    // my top row is row 1, their bottom row is row 0
    let up = compute_border_abs_diff(&img, &tile(0, 1, 2, 1), &tile(0, 0, 2, 1), Direction::Up);
    let down = compute_border_abs_diff(&img, &tile(0, 0, 2, 1), &tile(0, 1, 2, 1), Direction::Down);
    assert_eq!(up, down);
}

#[test]
fn border_left_columns() {
    let img = sample();
    // my left column is column 1, their right column is column 0
    let c = compute_border_abs_diff(&img, &tile(1, 0, 1, 2), &tile(0, 0, 1, 2), Direction::Left);
    assert_eq!(c, (3 + 2 + 0 + 10) + (255 * 4));
}

#[test]
fn border_of_empty_tiles_is_zero() {
    let img = sample();
    let c = compute_border_abs_diff(&img, &tile(0, 0, 0, 2), &tile(1, 0, 0, 2), Direction::Right);
    assert_eq!(c, 0);
    let c = compute_border_abs_diff(&img, &tile(0, 0, 2, 0), &tile(0, 1, 2, 0), Direction::Down);
    assert_eq!(c, 0);
}

#[test]
fn border_same_tile_is_zero_for_uniform_edge() {
    let img = Image::from_raw(2, 2, vec![7u8; 16]).unwrap();
    for dir in [Direction::Up, Direction::Down, Direction::Left, Direction::Right] {
        assert_eq!(compute_border_abs_diff(&img, &tile(0, 0, 1, 1), &tile(1, 1, 1, 1), dir), 0);
    }
}
