use raytracer::camera::{image_height, pinhole, render, Camera};
use raytracer::rank::rank;

#[test]
fn pixels_come_row_by_row_from_the_top_left() {
    let image = render(3, 2, |i, j| (i, j));
    assert_eq!(image, vec![(0, 0), (1, 0), (2, 0), (0, 1), (1, 1), (2, 1)]);
}

#[test]
fn every_pixel_is_worked_out_once_in_order() {
    let calls = std::cell::RefCell::new(Vec::new());
    let image = render(2, 3, |i, j| {
        calls.borrow_mut().push((i, j));
        10 * j + i
    });
    assert_eq!(image, vec![0, 1, 10, 11, 20, 21]);
    assert_eq!(*calls.borrow(), vec![(0, 0), (1, 0), (0, 1), (1, 1), (0, 2), (1, 2)]);
}

#[test]
fn pixel_of_index_k_is_column_k_mod_width_of_row_k_div_width() {
    let width = 7;
    let image = render(width, 5, |i, j| (i, j));
    assert_eq!(image.len(), 35);
    for (k, pixel) in image.iter().enumerate() {
        assert_eq!(*pixel, (k % width, k / width));
    }
}

#[test]
fn an_image_without_columns_or_rows_is_empty() {
    assert_eq!(render(0, 4, |i, j| (i, j)), vec![]);
    assert_eq!(render(4, 0, |i, j| (i, j)), vec![]);
    assert_eq!(render(0, 0, |i, j| (i, j)), vec![]);
}

#[test]
fn a_single_column_and_a_single_row() {
    assert_eq!(render(1, 3, |i, j| (i, j)), vec![(0, 0), (0, 1), (0, 2)]);
    assert_eq!(render(3, 1, |i, j| (i, j)), vec![(0, 0), (1, 0), (2, 0)]);
}

#[test]
fn an_image_is_one_row_high_at_the_least() {
    assert_eq!(image_height(0), 1);
    assert_eq!(image_height(1), 1);
    assert_eq!(image_height(2), 2);
    assert_eq!(image_height(675), 675);
    assert_eq!(image_height(usize::MAX), usize::MAX);
}

#[test]
fn image_height_of_a_wide_and_a_usual_image() {
    // 10 columns at 16 : 1 leave less than a row; 1200 columns at 16 : 9 give 675 rows.
    assert_eq!(image_height((10.0 / 16.0) as usize), 1);
    assert_eq!(image_height((1200.0 / (16.0 / 9.0)) as usize), 675);
}

#[test]
fn without_defocus_angle_the_camera_is_a_pinhole() {
    assert!(pinhole(0));
    assert!(pinhole(-1));
    assert!(pinhole(i64::MIN));
    assert!(!pinhole(1));
    assert!(!pinhole(i64::MAX));
    assert!(pinhole(rank(0.0f64.to_bits()).unwrap()));
    assert!(pinhole(rank((-10.0f64).to_bits()).unwrap()));
    assert!(!pinhole(rank(0.6f64.to_bits()).unwrap()));
    assert!(!pinhole(rank(5.0e-324f64.to_bits()).unwrap()));
}

#[test]
fn a_camera_keeps_what_it_counts() {
    let camera = Camera::new(1200, 675, 200, 50);
    assert_eq!(camera.image_width, 1200);
    assert_eq!(camera.image_height, 675);
    assert_eq!(camera.samples_per_pixel, 200);
    assert_eq!(camera.max_depth, 50);
    let same = Camera { image_width: 1200, image_height: 675, samples_per_pixel: 200, max_depth: 50 };
    assert_eq!(camera, same);
}
