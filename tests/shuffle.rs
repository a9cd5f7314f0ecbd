use slice_n_shuffle::{
    decode_image, encode_image, encode_image_with_rng, get_shuffled_indices, Error, Image, SnsImpl,
    TileRng,
};

fn assert_permutation(p: &[usize], n: usize) {
    let mut sorted = p.to_vec();
    sorted.sort();
    assert_eq!(sorted, (0..n).collect::<Vec<usize>>());
}

/// Each pixel holds its own coordinates, so every tile is distinct.
fn coordinates(width: u32, height: u32) -> Image {
    let mut data = Vec::new();
    for y in 0..height {
        for x in 0..width {
            data.extend_from_slice(&[x as u8, y as u8, (x + y) as u8, 255]);
        }
    }
    Image::from_raw(width, height, data).unwrap()
}

fn tile_bytes(img: &Image, sns: &SnsImpl, sub_w: u32, sub_h: u32, idx: usize) -> Vec<u8> {
    let col = (idx % sns.x_split as usize) as u32;
    let row = (idx / sns.x_split as usize) as u32;
    let mut out = Vec::new();
    for y in 0..sub_h {
        for x in 0..sub_w {
            out.extend_from_slice(&img.pixel(col * sub_w + x, row * sub_h + y));
        }
    }
    out
}

#[test]
fn shuffled_indices_are_permutations() {
    let mut rng = TileRng::from_seed([1, 2, 3, 4, 5, 6, 7, 8]);
    for n in [1usize, 2, 3, 16, 225] {
        let p = get_shuffled_indices(n, &mut rng);
        assert_eq!(p.len(), n);
        assert_permutation(&p, n);
    }
    assert!(get_shuffled_indices(0, &mut rng).is_empty());
}

#[test]
fn shuffled_indices_are_reordered() {
    let mut rng = TileRng::from_seed([9, 9, 9, 9, 0, 0, 0, 0]);
    let p = get_shuffled_indices(100, &mut rng);
    assert_ne!(p, (0..100).collect::<Vec<usize>>());
}

#[test]
fn shuffled_indices_repeat_for_a_fixed_seed() {
    let mut a = TileRng::from_seed([42, 0, 0, 0, 0, 0, 0, 0]);
    let mut b = TileRng::from_seed([42, 0, 0, 0, 0, 0, 0, 0]);
    assert_eq!(get_shuffled_indices(50, &mut a), get_shuffled_indices(50, &mut b));
}

#[test]
fn grid_shuffle_covers_all_tiles() {
    let sns = SnsImpl::new(5, 3);
    let mut rng = TileRng::from_seed([3, 1, 4, 1, 5, 9, 2, 6]);
    assert_permutation(&sns.get_shuffled_indices(&mut rng), 15);
}

#[test]
fn entropy_generator_is_available() {
    let mut rng = TileRng::from_entropy().unwrap();
    assert_permutation(&get_shuffled_indices(10, &mut rng), 10);
}

#[test]
fn arrange_identity_reproduces_input() {
    let img = coordinates(12, 6);
    let sns = SnsImpl::new(4, 3);
    let params = sns.compute_dimension_params(&img).unwrap();
    let identity: Vec<usize> = (0..12).collect();
    let out = sns.arrange_splits(&img, &params, &identity).unwrap();
    assert_eq!(out.as_raw(), img.as_raw());
    assert_eq!((out.width(), out.height()), (12, 6));
}

#[test]
fn arrange_moves_each_tile() {
    let img = coordinates(12, 6);
    let sns = SnsImpl::new(4, 3);
    let params = sns.compute_dimension_params(&img).unwrap();
    let perm: Vec<usize> = vec![11, 0, 5, 3, 7, 1, 2, 10, 9, 4, 8, 6];
    let out = sns.arrange_splits(&img, &params, &perm).unwrap();
    for d in 0..12 {
        assert_eq!(tile_bytes(&out, &sns, 3, 2, d), tile_bytes(&img, &sns, 3, 2, perm[d]));
    }
    // top-left pixel of the output is the top-left pixel of source tile 11
    assert_eq!(out.pixel(0, 0), img.pixel(9, 4));
}

#[test]
fn arrange_rejects_mismatched_inputs() {
    let img = coordinates(12, 6);
    let sns = SnsImpl::new(4, 3);
    let params = sns.compute_dimension_params(&img).unwrap();
    let identity: Vec<usize> = (0..12).collect();
    let small = coordinates(8, 6);
    assert_eq!(sns.arrange_splits(&small, &params, &identity).unwrap_err(), Error::Convert);
    let out_of_grid: Vec<usize> = (1..13).collect();
    assert_eq!(sns.arrange_splits(&img, &params, &out_of_grid).unwrap_err(), Error::Convert);
    let short: Vec<usize> = (0..11).collect();
    assert_eq!(sns.arrange_splits(&img, &params, &short).unwrap_err(), Error::Convert);
    let other = SnsImpl::new(2, 3);
    assert_eq!(other.arrange_splits(&img, &params, &(0..6).collect()).unwrap_err(), Error::Convert);
}

#[test]
fn encode_relocates_tiles() {
    let img = coordinates(16, 8);
    let mut rng = TileRng::from_seed([5, 5, 5, 5, 5, 5, 5, 5]);
    let out = encode_image_with_rng(&img, 4, 2, &mut rng).unwrap();
    assert_eq!((out.width(), out.height()), (16, 8));
    let sns = SnsImpl::new(4, 2);
    let mut out_tiles: Vec<Vec<u8>> = (0..8).map(|d| tile_bytes(&out, &sns, 4, 4, d)).collect();
    let mut in_tiles: Vec<Vec<u8>> = (0..8).map(|d| tile_bytes(&img, &sns, 4, 4, d)).collect();
    out_tiles.sort();
    in_tiles.sort();
    assert_eq!(out_tiles, in_tiles);
}

#[test]
fn encode_with_entropy() {
    let img = coordinates(16, 8);
    let out = encode_image(&img, 2, 2).unwrap();
    let mut a = out.as_raw().clone();
    let mut b = img.as_raw().clone();
    a.sort();
    b.sort();
    assert_eq!(a, b);
}

#[test]
fn encode_and_decode_reject_indivisible_sizes() {
    let img = coordinates(10, 9);
    let expected = Error::DimensionMismatch { width: 10, height: 9, x_split: 3, y_split: 3 };
    assert_eq!(encode_image(&img, 3, 3).unwrap_err(), expected);
    let mut rng = TileRng::from_seed([0; 8]);
    assert_eq!(encode_image_with_rng(&img, 3, 3, &mut rng).unwrap_err(), expected);
    assert_eq!(decode_image(&img, 3, 3).unwrap_err(), expected);
}
