use dewatermark::PixelGrid;

#[test]
fn grid_needs_four_samples_for_each_pixel() {
    assert!(PixelGrid::from_raw(2, 3, vec![0u8; 24]).is_some());
    assert!(PixelGrid::from_raw(2, 3, vec![0u8; 23]).is_none());
    assert!(PixelGrid::from_raw(2, 3, vec![0u8; 25]).is_none());
    assert!(PixelGrid::from_raw(1, 1, vec![0u8; 4]).is_some());
    assert!(PixelGrid::from_raw(1, 1, Vec::new()).is_none());
}

#[test]
fn grid_without_pixels_is_refused() {
    assert!(PixelGrid::from_raw(0, 0, Vec::new()).is_none());
    assert!(PixelGrid::from_raw(0, 4, Vec::new()).is_none());
    assert!(PixelGrid::from_raw(4, 0, Vec::new()).is_none());
}

#[test]
fn grid_of_huge_dimensions_is_refused() {
    assert!(PixelGrid::from_raw(u32::MAX, u32::MAX, vec![0u8; 4]).is_none());
    assert!(PixelGrid::from_raw(u32::MAX, 1, vec![0u8; 4]).is_none());
}

#[test]
fn grid_hands_back_what_it_was_made_of() {
    let samples: Vec<u8> = (0u8..24).collect();
    let grid = PixelGrid::from_raw(3, 2, samples.clone()).unwrap();
    assert_eq!(grid.width(), 3);
    assert_eq!(grid.height(), 2);
    assert_eq!(grid.as_raw(), &samples);
    assert_eq!(grid.into_raw(), samples);
}

#[test]
fn grid_reads_pixels_row_by_row() {
    let samples: Vec<u8> = (0u8..24).collect();
    let grid = PixelGrid::from_raw(3, 2, samples).unwrap();
    assert_eq!(grid.get_pixel(0, 0), [0, 1, 2, 3]);
    assert_eq!(grid.get_pixel(1, 0), [4, 5, 6, 7]);
    assert_eq!(grid.get_pixel(2, 0), [8, 9, 10, 11]);
    assert_eq!(grid.get_pixel(0, 1), [12, 13, 14, 15]);
    assert_eq!(grid.get_pixel(2, 1), [20, 21, 22, 23]);
}
