use uhd_canvas::compose::{blank, compose, frame, resample};
use uhd_canvas::orientation::{orient, Orientation};
use uhd_canvas::raster::Raster;

fn plain(width: u32, height: u32, pixel: [u8; 4]) -> Raster {
    let mut samples = Vec::with_capacity((width * height * 4) as usize);
    for _ in 0..width * height {
        samples.extend_from_slice(&pixel);
    }
    Raster::new(width, height, samples).unwrap()
}

fn pixel(picture: &Raster, x: u32, y: u32) -> [u8; 4] {
    [
        picture.sample(x, y, 0),
        picture.sample(x, y, 1),
        picture.sample(x, y, 2),
        picture.sample(x, y, 3),
    ]
}

#[test]
fn blank_canvas_is_opaque_black() {
    let canvas = blank();
    assert_eq!((canvas.width(), canvas.height()), (3840, 2160));
    let samples = canvas.samples();
    assert_eq!(samples.len(), 3840 * 2160 * 4);
    assert!(samples.chunks(4).all(|p| p == [0, 0, 0, 255]));
}

#[test]
fn frame_copies_the_picture_into_the_centre() {
    let mut samples = Vec::new();
    for y in 0..3u8 {
        for x in 0..5u8 {
            samples.extend_from_slice(&[10 + x, 20 + y, 30, 200]);
        }
    }
    let canvas = frame(&Raster::new(5, 3, samples).unwrap());
    assert_eq!((canvas.width(), canvas.height()), (3840, 2160));
    // Margins: (3840 - 5) / 2 = 1917 and (2160 - 3) / 2 = 1078.
    for y in 0..3 {
        for x in 0..5 {
            assert_eq!(pixel(&canvas, 1917 + x, 1078 + y), [10 + x as u8, 20 + y as u8, 30, 200]);
        }
    }
    for &(x, y) in &[(1916, 1078), (1922, 1078), (1917, 1077), (1917, 1081), (0, 0), (3839, 2159)]
    {
        assert_eq!(pixel(&canvas, x, y), [0, 0, 0, 255], "({x}, {y})");
    }
    let covered = canvas.samples().chunks(4).filter(|p| *p != [0, 0, 0, 255]).count();
    assert_eq!(covered, 15);
}

#[test]
fn frame_of_a_full_canvas_leaves_no_background() {
    let canvas = frame(&plain(3840, 2160, [9, 8, 7, 255]));
    assert!(canvas.samples().chunks(4).all(|p| p == [9, 8, 7, 255]));
}

#[test]
fn resample_gives_the_size_asked_for() {
    let upright = plain(40, 30, [200, 100, 50, 255]);
    let scaled = resample(&upright, 77, 13).unwrap();
    assert_eq!((scaled.width(), scaled.height()), (77, 13));
    assert_eq!(scaled.samples().len(), 77 * 13 * 4);
    assert_eq!(pixel(&scaled, 38, 6), [200, 100, 50, 255]);
    let same = resample(&upright, 40, 30).unwrap();
    assert_eq!(same.samples(), upright.samples());
}

#[test]
fn compose_fills_the_height_with_a_tall_picture() {
    // 400 x 600 scales by 3.6 to 1440 x 2160: bars of 1200 pixels on both sides.
    let canvas = compose(plain(400, 600, [250, 250, 250, 255]), Orientation::Normal).unwrap();
    assert_eq!((canvas.width(), canvas.height()), (3840, 2160));
    for y in [0, 1080, 2159] {
        assert_eq!(pixel(&canvas, 1199, y), [0, 0, 0, 255]);
        assert_eq!(pixel(&canvas, 1200, y), [250, 250, 250, 255]);
        assert_eq!(pixel(&canvas, 2639, y), [250, 250, 250, 255]);
        assert_eq!(pixel(&canvas, 2640, y), [0, 0, 0, 255]);
    }
}

#[test]
fn compose_scales_by_the_upright_sides() {
    // Stored 600 x 400, upright after a quarter turn 400 x 600.
    let turned = compose(plain(600, 400, [250, 250, 250, 255]), Orientation::Rotate90).unwrap();
    let upright = compose(plain(400, 600, [250, 250, 250, 255]), Orientation::Normal).unwrap();
    assert_eq!(turned.samples(), upright.samples());
    // Without the turn the picture fills the width: 3240 x 2160, bars of 300.
    let wide = compose(plain(600, 400, [250, 250, 250, 255]), Orientation::Normal).unwrap();
    assert_eq!(pixel(&wide, 299, 1000), [0, 0, 0, 255]);
    assert_eq!(pixel(&wide, 300, 1000), [250, 250, 250, 255]);
    assert_eq!(pixel(&wide, 3539, 1000), [250, 250, 250, 255]);
    assert_eq!(pixel(&wide, 3540, 1000), [0, 0, 0, 255]);
}

#[test]
fn compose_enlarges_a_small_picture() {
    let canvas = compose(plain(16, 9, [1, 2, 3, 255]), Orientation::FlipVertical).unwrap();
    assert!(canvas.samples().chunks(4).all(|p| p == [1, 2, 3, 255]));
}

#[test]
fn compose_of_a_sliver_shows_the_blank_canvas() {
    // One pixel wide and 5000 high: the width scales to less than a pixel.
    let canvas = compose(plain(1, 5000, [255, 255, 255, 255]), Orientation::Normal).unwrap();
    assert!(canvas.samples().chunks(4).all(|p| p == [0, 0, 0, 255]));
}

#[test]
fn compose_keeps_every_orientation_side_by_side() {
    let mut samples = Vec::new();
    for y in 0..40u32 {
        for x in 0..80u32 {
            let left = x < 40;
            let top = y < 20;
            samples.extend_from_slice(&[
                if left { 255 } else { 0 },
                if top { 255 } else { 0 },
                0,
                255,
            ]);
        }
    }
    // Upright after a half turn: the left half (red) shows on the right, the
    // top half (green) at the bottom.
    let canvas = compose(Raster::new(80, 40, samples).unwrap(), Orientation::Rotate180).unwrap();
    // 80 x 40 scales by 48 to 3840 x 1920: bars of 120 rows above and below.
    assert_eq!(pixel(&canvas, 1000, 119), [0, 0, 0, 255]);
    assert_eq!(pixel(&canvas, 1000, 2040), [0, 0, 0, 255]);
    assert_eq!(pixel(&canvas, 900, 500), [0, 0, 0, 255]);
    assert_eq!(pixel(&canvas, 2900, 500), [255, 0, 0, 255]);
    assert_eq!(pixel(&canvas, 900, 1600), [0, 255, 0, 255]);
    assert_eq!(pixel(&canvas, 2900, 1600), [255, 255, 0, 255]);
}

/// A picture of the size of the canvas, or of the canvas turned, each of
/// whose pixels tells its place.
fn chart(width: u32, height: u32) -> Vec<u8> {
    let mut samples = Vec::with_capacity((width * height * 4) as usize);
    for y in 0..height {
        for x in 0..width {
            samples.extend_from_slice(&[(x % 251) as u8, (y % 241) as u8, ((x + y) % 239) as u8, 255]);
        }
    }
    samples
}

#[test]
fn a_picture_of_the_size_of_the_canvas_is_copied_sample_for_sample() {
    let canvas = compose(Raster::new(3840, 2160, chart(3840, 2160)).unwrap(), Orientation::Normal)
        .unwrap();
    assert_eq!(canvas.into_samples(), chart(3840, 2160));
}

#[test]
fn a_flipped_picture_of_the_size_of_the_canvas_is_copied_upright() {
    let stored = chart(3840, 2160);
    for o in [Orientation::FlipHorizontal, Orientation::Rotate180, Orientation::FlipVertical] {
        let upright = orient(Raster::new(3840, 2160, stored.clone()).unwrap(), o);
        let canvas = compose(Raster::new(3840, 2160, stored.clone()).unwrap(), o).unwrap();
        assert!(canvas.samples() == upright.samples(), "{o:?}");
        assert!(canvas.samples() != &stored, "{o:?}");
    }
}

#[test]
fn a_turned_picture_of_the_size_of_the_canvas_is_copied_upright() {
    let stored = chart(2160, 3840);
    for o in [
        Orientation::Rotate90FlipHorizontal,
        Orientation::Rotate90,
        Orientation::Rotate270FlipHorizontal,
        Orientation::Rotate270,
    ] {
        let upright = orient(Raster::new(2160, 3840, stored.clone()).unwrap(), o);
        assert_eq!((upright.width(), upright.height()), (3840, 2160));
        let canvas = compose(Raster::new(2160, 3840, stored.clone()).unwrap(), o).unwrap();
        assert!(canvas.samples() == upright.samples(), "{o:?}");
    }
}

#[test]
fn a_picture_as_high_as_the_canvas_is_copied_between_the_bars() {
    // 1000 x 2160 has its fitted size already.
    let canvas =
        compose(Raster::new(1000, 2160, chart(1000, 2160)).unwrap(), Orientation::Normal).unwrap();
    let stored = Raster::new(1000, 2160, chart(1000, 2160)).unwrap();
    for &(x, y) in &[(0, 0), (999, 2159), (500, 1000), (1, 2158)] {
        assert_eq!(pixel(&canvas, 1420 + x, y), pixel(&stored, x, y));
    }
    assert_eq!(pixel(&canvas, 1419, 1000), [0, 0, 0, 255]);
    assert_eq!(pixel(&canvas, 2420, 1000), [0, 0, 0, 255]);
}
