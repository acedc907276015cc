use uhd_canvas::slideshow::{
    is_jpeg_extension, is_slide, list_slides, names_jpeg, plan_slideshow, AssemblyError,
};
use uhd_canvas::sorting::sort_names;

fn names(list: &[&str]) -> Vec<String> {
    list.iter().map(|s| s.to_string()).collect()
}

#[test]
fn jpeg_extensions_in_any_case() {
    for e in ["jpg", "jpeg", "JPG", "JPEG", "Jpg", "jPeG"] {
        assert!(is_jpeg_extension(e), "{e}");
    }
    for e in ["", "png", "jpe", "jpgg", "jpeg2", " jpg", "jp g", "gif", ".jpg"] {
        assert!(!is_jpeg_extension(e), "{e}");
    }
}

#[test]
fn slides_are_converted_jpeg_files() {
    assert!(is_slide("20220501_083000_uhd.jpg", Some("jpg")));
    assert!(is_slide("IMG_0001_uhd.JPEG", Some("JPEG")));
    assert!(is_slide("x_uhd_copy.jpeg", Some("jpeg")));
    assert!(!is_slide("20220501_083000.jpg", Some("jpg")));
    assert!(!is_slide("20220501_083000_uhd.png", Some("png")));
    assert!(!is_slide("20220501_083000_UHD.jpg", Some("jpg")));
    assert!(!is_slide("_uhd", None));
    assert!(!is_slide("_uh.jpg", Some("jpg")));
}

#[test]
fn listing_gives_each_slide_a_duration_and_repeats_the_last() {
    let listing = list_slides(&names(&["converted/a_uhd.jpg", "converted/b_uhd.jpg"]), "2.5");
    assert_eq!(
        listing,
        "file 'converted/a_uhd.jpg'\nduration 2.5\n\
         file 'converted/b_uhd.jpg'\nduration 2.5\n\
         file 'converted/b_uhd.jpg'\n"
    );
}

#[test]
fn listing_of_one_slide() {
    assert_eq!(list_slides(&names(&["only.jpg"]), "3"), "file 'only.jpg'\nduration 3\nfile 'only.jpg'\n");
}

#[test]
fn listing_of_no_slide_is_empty() {
    assert_eq!(list_slides(&Vec::new(), "3"), "");
}

#[test]
fn plan_puts_the_slides_in_the_order_of_their_names() {
    let found = names(&[
        "converted/20230101_100000_uhd.jpg",
        "converted/20230101_090000_uhd.jpg",
        "converted/20230101_110000_uhd.jpg",
    ]);
    let listing = plan_slideshow(&found, "4").unwrap();
    assert_eq!(
        listing,
        "file 'converted/20230101_090000_uhd.jpg'\nduration 4\n\
         file 'converted/20230101_100000_uhd.jpg'\nduration 4\n\
         file 'converted/20230101_110000_uhd.jpg'\nduration 4\n\
         file 'converted/20230101_110000_uhd.jpg'\n"
    );
}

#[test]
fn plan_without_slides_fails() {
    assert_eq!(plan_slideshow(&Vec::new(), "4"), Err(AssemblyError::NoSlides));
}

#[test]
fn names_are_sorted_as_strings_are() {
    let mut seed: u32 = 12345;
    let mut list = Vec::new();
    for _ in 0..300 {
        let mut name = String::new();
        seed = seed.wrapping_mul(1_103_515_245).wrapping_add(12345);
        let length = (seed >> 16) % 6;
        for _ in 0..length {
            seed = seed.wrapping_mul(1_103_515_245).wrapping_add(12345);
            name.push(['a', 'b', 'B', '0', '_', 'é', 'z', '~', '雪'][(seed >> 16) as usize % 9]);
        }
        list.push(name);
    }
    let sorted = sort_names(&list);
    let mut expected = list.clone();
    expected.sort();
    assert_eq!(sorted, expected);
}

#[test]
fn sorting_keeps_every_name() {
    let sorted = sort_names(&names(&["b", "a", "b", "", "ab", "a"]));
    assert_eq!(sorted, names(&["", "a", "a", "ab", "b", "b"]));
    assert_eq!(sort_names(&Vec::new()), Vec::<String>::new());
}

#[test]
fn the_two_extensions_in_lower_case() {
    assert!(names_jpeg("jpg"));
    assert!(names_jpeg("jpeg"));
    for other in ["", "JPG", "Jpeg", "jpe", "jpegs", "png", "jp g"] {
        assert!(!names_jpeg(other), "{other}");
    }
}
