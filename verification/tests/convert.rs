use exif::experimental::Writer;
use exif::{Field, In, Tag, Value};
use image::codecs::jpeg::JpegEncoder;
use image::ColorType;
use std::io::Cursor;
use uhd_canvas::convert::{
    accept, convert, convert_decoded, convert_picture, decode, encode,
};
use uhd_canvas::error::ConvertError;
use uhd_canvas::orientation::Orientation;
use uhd_canvas::raster::Raster;

/// A JPEG file of a picture whose left half is red and whose right half is
/// blue, with a white band along its top edge.
fn photo(width: u32, height: u32) -> Vec<u8> {
    let white = vec![255u8; width as usize * 3];
    let mut halves = Vec::with_capacity(width as usize * 3);
    for x in 0..width {
        halves.extend_from_slice(if x < width / 2 { &[255, 0, 0] } else { &[0, 0, 255] });
    }
    let mut samples = Vec::with_capacity((width * height * 3) as usize);
    for y in 0..height {
        samples.extend_from_slice(if y < height / 8 { &white } else { &halves });
    }
    let mut out = Vec::new();
    JpegEncoder::new_with_quality(&mut out, 95)
        .encode(&samples, width, height, ColorType::Rgb8)
        .unwrap();
    out
}

/// A JPEG file in shades of grey of a picture whose left half is dark and
/// whose right half is light, with a white band along its top edge.
fn grey_photo(width: u32, height: u32) -> Vec<u8> {
    let white = vec![255u8; width as usize];
    let mut halves = vec![60u8; width as usize];
    for sample in &mut halves[width as usize / 2..] {
        *sample = 180;
    }
    let mut samples = Vec::with_capacity((width * height) as usize);
    for y in 0..height {
        samples.extend_from_slice(if y < height / 8 { &white } else { &halves });
    }
    let mut out = Vec::new();
    JpegEncoder::new_with_quality(&mut out, 95)
        .encode(&samples, width, height, ColorType::L8)
        .unwrap();
    out
}

/// The file with a metadata segment put behind its first marker.
fn with_metadata(jpeg: &[u8], fields: &[Field]) -> Vec<u8> {
    let mut writer = Writer::new();
    for field in fields {
        writer.push_field(field);
    }
    let mut tiff = Cursor::new(Vec::new());
    writer.write(&mut tiff, false).unwrap();
    let tiff = tiff.into_inner();
    let length = (tiff.len() + 8) as u16;
    let mut out = Vec::new();
    out.extend_from_slice(&jpeg[..2]);
    out.extend_from_slice(&[0xff, 0xe1]);
    out.extend_from_slice(&length.to_be_bytes());
    out.extend_from_slice(b"Exif\0\0");
    out.extend_from_slice(&tiff);
    out.extend_from_slice(&jpeg[2..]);
    out
}

fn orientation(code: u16) -> Field {
    Field { tag: Tag::Orientation, ifd_num: In::PRIMARY, value: Value::Short(vec![code]) }
}

fn date(tag: Tag, text: &str) -> Field {
    Field { tag, ifd_num: In::PRIMARY, value: Value::Ascii(vec![text.as_bytes().to_vec()]) }
}

#[test]
fn turned_photo_is_centred_between_black_bars() {
    let file = with_metadata(
        &grey_photo(6000, 4000),
        &[orientation(6), date(Tag::DateTimeOriginal, "2022:05:01 08:30:00")],
    );
    let done = convert(&file, Some(0), Some("IMG_0001")).unwrap();
    assert_eq!(done.naming.relative_path(), "converted/20220501_083000_uhd.jpg");
    let canvas = image::load_from_memory(&done.jpeg).unwrap().into_rgb8();
    assert_eq!(canvas.dimensions(), (3840, 2160));
    // The upright picture is 1440 wide and fills the height: bars of 1200
    // pixels stand on both sides.
    for &(x, y) in &[(0, 0), (600, 1000), (1190, 2159), (2650, 0), (3839, 1080)] {
        let p = canvas.get_pixel(x, y).0;
        assert!(p[0] < 8 && p[1] < 8 && p[2] < 8, "({x}, {y}) is {p:?}");
    }
    // A quarter turn clockwise brings the dark left half to the top, the
    // light right half to the bottom and the white band to the right edge.
    let near = |x: u32, y: u32, want: i32| {
        let p = canvas.get_pixel(x, y).0;
        assert!(p.iter().all(|&s| (s as i32 - want).abs() < 10), "({x}, {y}) is {p:?}");
    };
    near(1800, 500, 60);
    near(1800, 1700, 180);
    near(2600, 500, 255);
    near(2600, 1700, 255);
    near(1210, 500, 60);
    near(1210, 1700, 180);
}

#[test]
fn one_bad_file_in_five_leaves_four_converted() {
    let good = photo(64, 48);
    let files: Vec<Vec<u8>> =
        vec![good.clone(), good.clone(), b"not a picture".to_vec(), good.clone(), good];
    let mut converted = 0;
    let mut failed = 0;
    for (index, file) in files.iter().enumerate() {
        match convert(file, Some(1_000_000 + index as u64), None) {
            Ok(done) => {
                assert!(done.jpeg.len() > 2);
                converted += 1;
            }
            Err(e) => {
                assert_eq!(e, ConvertError::Decode);
                assert_eq!(index, 2);
                failed += 1;
            }
        }
    }
    assert_eq!((converted, failed), (4, 1));
}

#[test]
fn decode_reads_the_pixels_of_a_jpeg() {
    let stored = decode(&photo(64, 48)).unwrap();
    assert_eq!((stored.width(), stored.height()), (64, 48));
    assert_eq!(stored.samples().len(), 64 * 48 * 4);
    let near = |x: u32, y: u32, want: [u8; 3]| {
        for c in 0..3u8 {
            let got = stored.sample(x, y, c) as i32;
            assert!((got - want[c as usize] as i32).abs() < 40, "({x}, {y}) sample {c} is {got}");
        }
        assert_eq!(stored.sample(x, y, 3), 255);
    };
    near(10, 2, [255, 255, 255]);
    near(10, 30, [255, 0, 0]);
    near(50, 30, [0, 0, 255]);
}

#[test]
fn decode_refuses_what_is_no_jpeg() {
    assert_eq!(decode(b"").err(), Some(ConvertError::Decode));
    assert_eq!(decode(b"not a picture").err(), Some(ConvertError::Decode));
    let whole = photo(16, 16);
    assert_eq!(decode(&whole[..whole.len() / 2]).err(), Some(ConvertError::Decode));
    assert_eq!(decode(&whole[..20]).err(), Some(ConvertError::Decode));
}

#[test]
fn accept_takes_a_decoded_picture() {
    let stored = accept(Ok((2, 1, vec![1, 2, 3, 4, 5, 6, 7, 8]))).unwrap();
    assert_eq!((stored.width(), stored.height()), (2, 1));
    assert_eq!(stored.into_samples(), vec![1, 2, 3, 4, 5, 6, 7, 8]);
}

#[test]
fn accept_refuses_a_picture_without_pixels_and_a_failure() {
    assert_eq!(accept(Ok((0, 0, Vec::new()))).err(), Some(ConvertError::Decode));
    assert_eq!(accept(Ok((2, 1, vec![0; 7]))).err(), Some(ConvertError::Decode));
    let failure = image::load_from_memory(b"nothing").unwrap_err();
    assert_eq!(accept(Err(failure)).err(), Some(ConvertError::Decode));
}

#[test]
fn encode_writes_a_jpeg_of_the_picture() {
    let mut samples = Vec::new();
    for _ in 0..32 * 24 {
        samples.extend_from_slice(&[200, 40, 90, 255]);
    }
    let jpeg = encode(&Raster::new(32, 24, samples).unwrap()).unwrap();
    assert_eq!(&jpeg[..2], &[0xff, 0xd8]);
    let back = image::load_from_memory(&jpeg).unwrap().into_rgb8();
    assert_eq!(back.dimensions(), (32, 24));
    let p = back.get_pixel(16, 12).0;
    assert!((p[0] as i32 - 200).abs() < 6 && (p[1] as i32 - 40).abs() < 6, "{p:?}");
    assert!((p[2] as i32 - 90).abs() < 6, "{p:?}");
}

#[test]
fn encode_writes_the_same_file_for_the_same_picture() {
    let samples: Vec<u8> = (0..16 * 16 * 4).map(|i| (i * 7 % 256) as u8).collect();
    let first = encode(&Raster::new(16, 16, samples.clone()).unwrap()).unwrap();
    let second = encode(&Raster::new(16, 16, samples).unwrap()).unwrap();
    assert_eq!(first, second);
}

#[test]
fn encode_refuses_a_side_beyond_sixteen_bits() {
    let wide = Raster::new(65_536, 1, vec![0; 65_536 * 4]).unwrap();
    assert_eq!(encode(&wide).err(), Some(ConvertError::Encode));
}

#[test]
fn convert_picture_gives_a_canvas_sized_jpeg() {
    let mut samples = Vec::new();
    for _ in 0..30 * 20 {
        samples.extend_from_slice(&[255, 255, 255, 255]);
    }
    let jpeg =
        convert_picture(Raster::new(30, 20, samples).unwrap(), Orientation::Rotate270).unwrap();
    let canvas = image::load_from_memory(&jpeg).unwrap().into_rgb8();
    assert_eq!(canvas.dimensions(), (3840, 2160));
    // Upright 20 x 30 scales by 72 to 1440 x 2160.
    assert!(canvas.get_pixel(1100, 1000).0.iter().all(|&s| s < 8));
    assert!(canvas.get_pixel(1300, 1000).0.iter().all(|&s| s > 247));
    assert!(canvas.get_pixel(2500, 1000).0.iter().all(|&s| s > 247));
    assert!(canvas.get_pixel(2700, 1000).0.iter().all(|&s| s < 8));
}

#[test]
fn convert_names_a_file_without_metadata_after_its_modification() {
    let done = convert(&photo(32, 32), Some(1_651_393_800), Some("IMG_0001")).unwrap();
    assert_eq!(done.naming.file_name(), "20220501_083000_uhd.jpg");
    let done = convert(&photo(32, 32), None, Some("IMG_0001")).unwrap();
    assert_eq!(done.naming.relative_path(), "converted/IMG_0001_uhd.jpg");
}

#[test]
fn convert_tells_which_fields_it_could_not_read() {
    let file = with_metadata(
        &photo(32, 32),
        &[date(Tag::DateTimeOriginal, "soon"), date(Tag::DateTimeDigitized, "2001:02:03 04:05:06")],
    );
    let done = convert(&file, None, None).unwrap();
    assert_eq!(done.unread, vec![uhd_canvas::timestamp::DateField::Original]);
    assert_eq!(done.naming.file_name(), "20010203_040506_uhd.jpg");
}

#[test]
fn convert_follows_the_orientation_in_the_metadata() {
    // Stored 96 x 64 with the white band along the top; code 3 turns it by a
    // half turn, so the band shows along the bottom of the canvas.
    let file = with_metadata(&photo(96, 64), &[orientation(3)]);
    let done = convert(&file, None, None).unwrap();
    let canvas = image::load_from_memory(&done.jpeg).unwrap().into_rgb8();
    // 96 x 64 scales by 33.75 to 3240 x 2160: bars of 300 on both sides.
    assert!(canvas.get_pixel(150, 1000).0.iter().all(|&s| s < 8));
    let band = canvas.get_pixel(1900, 2100).0;
    assert!(band.iter().all(|&s| s > 200), "{band:?}");
    let top_left = canvas.get_pixel(900, 300).0;
    assert!(top_left[2] > 200 && top_left[0] < 60, "{top_left:?}");
    let top_right = canvas.get_pixel(2900, 300).0;
    assert!(top_right[0] > 200 && top_right[2] < 60, "{top_right:?}");
}

#[test]
fn every_picture_that_fits_sixteen_bits_is_encoded() {
    for &(w, h) in &[(1u32, 1u32), (3840, 2160), (65_535, 1), (1, 65_535), (17, 9)] {
        let picture = Raster::new(w, h, vec![77; (w * h * 4) as usize]).unwrap();
        assert!(encode(&picture).is_ok(), "{w} x {h}");
    }
    let tall = Raster::new(1, 65_536, vec![0; 65_536 * 4]).unwrap();
    assert_eq!(encode(&tall).err(), Some(ConvertError::Encode));
}

#[test]
fn every_stored_picture_is_converted() {
    for &(w, h) in &[(1u32, 1u32), (1, 5000), (29, 1), (3840, 2160)] {
        let picture = Raster::new(w, h, vec![200; (w * h * 4) as usize]).unwrap();
        let jpeg = convert_picture(picture, Orientation::Rotate90).unwrap();
        assert_eq!(&jpeg[..2], &[0xff, 0xd8], "{w} x {h}");
    }
}

#[test]
fn what_the_decoder_gives_is_converted() {
    let file = with_metadata(
        &photo(8, 8),
        &[orientation(6), date(Tag::DateTime, "2010:10:10 10:10:10")],
    );
    // The picture handed over need not be the one in the file: a white
    // picture of 30 by 20 pixels, turned by the orientation in the file.
    let white = vec![255u8; 30 * 20 * 4];
    let done = convert_decoded(Ok((30, 20, white)), &file, Some(7), Some("a")).unwrap();
    assert_eq!(done.naming.file_name(), "20101010_101010_uhd.jpg");
    assert!(done.unread.is_empty());
    let canvas = image::load_from_memory(&done.jpeg).unwrap().into_rgb8();
    assert_eq!(canvas.dimensions(), (3840, 2160));
    assert!(canvas.get_pixel(1100, 1000).0.iter().all(|&s| s < 8));
    assert!(canvas.get_pixel(1300, 1000).0.iter().all(|&s| s > 247));
}

#[test]
fn what_the_decoder_refuses_is_not_converted() {
    let file = photo(8, 8);
    let failure = image::load_from_memory(b"nothing").unwrap_err();
    let refused = convert_decoded(Err(failure), &file, Some(7), Some("a"));
    assert_eq!(refused.err(), Some(ConvertError::Decode));
    let empty = convert_decoded(Ok((0, 0, Vec::new())), &file, Some(7), Some("a"));
    assert_eq!(empty.err(), Some(ConvertError::Decode));
    let short = convert_decoded(Ok((2, 2, vec![0; 15])), &file, Some(7), Some("a"));
    assert_eq!(short.err(), Some(ConvertError::Decode));
}
