use slice_n_shuffle::{decode_image, DimensionParams, Error, Image, SnsImpl};

fn assert_permutation(p: &[usize], n: usize) {
    let mut sorted = p.to_vec();
    sorted.sort();
    assert_eq!(sorted, (0..n).collect::<Vec<usize>>());
}

/// Red grows to the right and green grows downwards, so a tile meets its
/// true neighbours with a difference of one per border pixel and any other
/// tile with more.
fn gradient(width: u32, height: u32) -> Image {
    let mut data = Vec::new();
    for y in 0..height {
        for x in 0..width {
            data.extend_from_slice(&[x as u8, y as u8, 0, 255]);
        }
    }
    Image::from_raw(width, height, data).unwrap()
}

#[test]
fn decode_single_tile() {
    let img = gradient(8, 6);
    let sns = SnsImpl::new(1, 1);
    let params = sns.compute_dimension_params(&img).unwrap();
    assert_eq!(sns.decode(&img, &params).unwrap(), vec![0]);
    assert_eq!(decode_image(&img, 1, 1).unwrap().as_raw(), img.as_raw());
}

#[test]
fn decode_returns_permutations() {
    let img = gradient(30, 12);
    for (x, y) in [(1u32, 1u32), (5, 3), (3, 4), (10, 1), (1, 6), (6, 6)] {
        let sns = SnsImpl::new(x, y);
        let params = sns.compute_dimension_params(&img).unwrap();
        let perm = sns.decode(&img, &params).unwrap();
        assert_permutation(&perm, (x * y) as usize);
    }
}

#[test]
fn decode_is_deterministic() {
    let img = gradient(24, 24);
    let sns = SnsImpl::new(4, 3);
    let params = sns.compute_dimension_params(&img).unwrap();
    let shuffled = sns
        .arrange_splits(&img, &params, &vec![5, 2, 11, 0, 7, 9, 1, 3, 10, 4, 8, 6])
        .unwrap();
    let first = sns.decode(&shuffled, &params).unwrap();
    for _ in 0..5 {
        assert_eq!(sns.decode(&shuffled, &params).unwrap(), first);
    }
    let a = decode_image(&shuffled, 4, 3).unwrap();
    let b = decode_image(&shuffled, 4, 3).unwrap();
    assert_eq!(a.as_raw(), b.as_raw());
}

#[test]
fn decode_round_trip_structured_image() {
    let img = gradient(256, 256);
    let sns = SnsImpl::new(4, 4);
    let params = sns.compute_dimension_params(&img).unwrap();
    assert_eq!(params, DimensionParams { width: 256, height: 256, sub_width: 64, sub_height: 64 });
    let perm: Vec<usize> = vec![13, 2, 7, 0, 15, 9, 4, 11, 1, 6, 14, 3, 8, 12, 5, 10];
    let shuffled = sns.arrange_splits(&img, &params, &perm).unwrap();
    assert_ne!(shuffled.as_raw(), img.as_raw());
    let found = sns.decode(&shuffled, &params).unwrap();
    let restored = sns.arrange_splits(&shuffled, &params, &found).unwrap();
    assert_eq!(restored.as_raw(), img.as_raw());
    let decoded = decode_image(&shuffled, 4, 4).unwrap();
    assert_eq!(decoded.as_raw(), img.as_raw());
}

#[test]
fn decode_round_trip_wide_grid() {
    let img = gradient(60, 20);
    let sns = SnsImpl::new(6, 2);
    let params = sns.compute_dimension_params(&img).unwrap();
    let perm: Vec<usize> = vec![7, 3, 11, 0, 9, 5, 1, 10, 2, 8, 4, 6];
    let shuffled = sns.arrange_splits(&img, &params, &perm).unwrap();
    let decoded = decode_image(&shuffled, 6, 2).unwrap();
    assert_eq!(decoded.as_raw(), img.as_raw());
}

#[test]
fn decode_uniform_image_is_total() {
    let img = Image::from_raw(16, 16, vec![0u8; 16 * 16 * 4]).unwrap();
    let sns = SnsImpl::new(4, 4);
    let params = sns.compute_dimension_params(&img).unwrap();
    let perm = sns.decode(&img, &params).unwrap();
    assert_permutation(&perm, 16);
    assert_eq!(sns.decode(&img, &params).unwrap(), perm);
    // every border ties at zero: the first start and the lowest index win
    assert_eq!(perm, (0..16).collect::<Vec<usize>>());
}

#[test]
fn decode_global_cost_of_true_arrangement() {
    let img = gradient(256, 256);
    let sns = SnsImpl::new(4, 4);
    let params = sns.compute_dimension_params(&img).unwrap();
    let identity: Vec<usize> = (0..16).collect();
    // 24 seams of 64 pixels, each differing by one in a single channel
    assert_eq!(sns.compute_total_abs_diff(&img, &identity, &params), 24 * 64);
}

#[test]
fn decode_greedy_candidate_from_each_start() {
    let img = gradient(40, 10);
    let sns = SnsImpl::new(4, 1);
    let params = sns.compute_dimension_params(&img).unwrap();
    let (arr, cost) = sns.evaluate_candidate(&img, &params, 0);
    assert_eq!(arr, vec![0, 1, 2, 3]);
    assert_eq!(cost, 3 * 10);
    let (arr, _) = sns.evaluate_candidate(&img, &params, 2);
    assert_eq!(arr[0], 2);
    assert_eq!(arr[1], 3);
    assert_permutation(&arr, 4);
}

#[test]
fn decode_rejects_mismatched_params() {
    let img = gradient(12, 12);
    let sns = SnsImpl::new(3, 3);
    let bad = DimensionParams { width: 12, height: 12, sub_width: 3, sub_height: 4 };
    assert_eq!(sns.decode(&img, &bad).unwrap_err(), Error::Convert);
    let other = DimensionParams { width: 9, height: 12, sub_width: 3, sub_height: 4 };
    assert_eq!(sns.decode(&img, &other).unwrap_err(), Error::Convert);
}
