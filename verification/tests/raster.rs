use uhd_canvas::raster::Raster;

#[test]
fn raster_takes_matching_samples() {
    let picture = Raster::new(2, 3, (0..24).collect()).unwrap();
    assert_eq!(picture.width(), 2);
    assert_eq!(picture.height(), 3);
    assert_eq!(picture.samples().len(), 24);
    assert_eq!(picture.sample(0, 0, 0), 0);
    assert_eq!(picture.sample(1, 0, 2), 6);
    assert_eq!(picture.sample(0, 1, 0), 8);
    assert_eq!(picture.sample(1, 2, 3), 23);
    assert_eq!(picture.into_samples(), (0..24).collect::<Vec<u8>>());
}

#[test]
fn raster_refuses_samples_that_do_not_match() {
    assert!(Raster::new(2, 3, vec![0; 23]).is_none());
    assert!(Raster::new(2, 3, vec![0; 25]).is_none());
    assert!(Raster::new(2, 3, vec![0; 6]).is_none());
    assert!(Raster::new(2, 3, Vec::new()).is_none());
}

#[test]
fn raster_refuses_a_picture_without_pixels() {
    assert!(Raster::new(0, 3, Vec::new()).is_none());
    assert!(Raster::new(3, 0, Vec::new()).is_none());
    assert!(Raster::new(0, 0, Vec::new()).is_none());
}

#[test]
fn raster_from_parts_keeps_the_parts() {
    let picture = Raster::from_parts(1, 2, vec![1, 2, 3, 4, 5, 6, 7, 8]);
    assert_eq!((picture.width(), picture.height()), (1, 2));
    assert_eq!(picture.sample(0, 1, 1), 6);
}
