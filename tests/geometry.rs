use slice_n_shuffle::{DimensionParams, Error, Image, SnsImpl};

fn blank(width: u32, height: u32) -> Image {
    Image::from_raw(width, height, vec![0u8; (4 * width * height) as usize]).unwrap()
}

#[test]
fn dimension_params_divisible() {
    let sns = SnsImpl::new(4, 2);
    let p = sns.compute_dimension_params(&blank(12, 6)).unwrap();
    assert_eq!(
        p,
        DimensionParams { width: 12, height: 6, sub_width: 3, sub_height: 3 }
    );
    assert_eq!(p.sub_width * 4, 12);
    assert_eq!(p.sub_height * 2, 6);
}

#[test]
fn dimension_params_width_not_divisible() {
    let sns = SnsImpl::new(5, 2);
    let e = sns.compute_dimension_params(&blank(12, 6)).unwrap_err();
    assert_eq!(e, Error::DimensionMismatch { width: 12, height: 6, x_split: 5, y_split: 2 });
}

#[test]
fn dimension_params_height_not_divisible() {
    let sns = SnsImpl::new(3, 4);
    let e = sns.compute_dimension_params(&blank(12, 6)).unwrap_err();
    assert_eq!(e, Error::DimensionMismatch { width: 12, height: 6, x_split: 3, y_split: 4 });
}

#[test]
fn dimension_params_empty_image() {
    let sns = SnsImpl::new(3, 7);
    let p = sns.compute_dimension_params(&blank(0, 0)).unwrap();
    assert_eq!(p, DimensionParams { width: 0, height: 0, sub_width: 0, sub_height: 0 });
}

#[test]
fn total_splits_is_product() {
    for (x, y) in [(1u32, 1u32), (5, 3), (10, 10)] {
        let sns = SnsImpl::new(x, y);
        assert_eq!(sns.total_splits, (x * y) as usize);
        assert_eq!(sns.x_split, x);
        assert_eq!(sns.y_split, y);
    }
}

#[test]
fn image_from_raw_checks_length() {
    assert!(Image::from_raw(2, 3, vec![0u8; 24]).is_some());
    assert!(Image::from_raw(2, 3, vec![0u8; 23]).is_none());
    assert!(Image::from_raw(2, 3, vec![0u8; 25]).is_none());
    let img = Image::new(3, 2);
    assert_eq!(img.as_raw().len(), 24);
    assert_eq!((img.width(), img.height()), (3, 2));
}

#[test]
fn image_pixel_reads_row_major() {
    let data: Vec<u8> = (0u8..24).collect();
    let img = Image::from_raw(3, 2, data).unwrap();
    assert_eq!(img.pixel(0, 0), [0, 1, 2, 3]);
    assert_eq!(img.pixel(2, 0), [8, 9, 10, 11]);
    assert_eq!(img.pixel(1, 1), [16, 17, 18, 19]);
}
