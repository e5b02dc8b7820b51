use gltf_opt::names::{decimal_text, default_image_name, update_image_name_for_ktx2};

fn renamed(name: &str) -> String {
    update_image_name_for_ktx2(&Some(name.to_string())).unwrap()
}

#[test]
fn upper_case_extension_is_replaced() {
    assert_eq!(renamed("wall.PNG"), "wall.ktx2");
}

#[test]
fn name_without_extension_gets_one() {
    assert_eq!(renamed("wall"), "wall.ktx2");
}

#[test]
fn each_recognized_extension_is_replaced() {
    assert_eq!(renamed("a.jpg"), "a.ktx2");
    assert_eq!(renamed("a.jpeg"), "a.ktx2");
    assert_eq!(renamed("a.png"), "a.ktx2");
    assert_eq!(renamed("a.webp"), "a.ktx2");
    assert_eq!(renamed("a.JPG"), "a.ktx2");
    assert_eq!(renamed("a.JPEG"), "a.ktx2");
    assert_eq!(renamed("a.WEBP"), "a.ktx2");
}

#[test]
fn case_of_the_extension_does_not_matter() {
    assert_eq!(renamed("a.JpEg"), "a.ktx2");
    assert_eq!(renamed("a.Png"), "a.ktx2");
    assert_eq!(renamed("a.wEbP"), "a.ktx2");
}

#[test]
fn only_the_end_of_the_name_counts() {
    assert_eq!(renamed("shot.png.bak"), "shot.png.bak.ktx2");
    assert_eq!(renamed("a.png.jpg"), "a.png.ktx2");
    assert_eq!(renamed("png"), "png.ktx2");
    assert_eq!(renamed("xpng"), "xpng.ktx2");
}

#[test]
fn unrecognized_extension_is_kept() {
    assert_eq!(renamed("a.gif"), "a.gif.ktx2");
    assert_eq!(renamed("a.ktx2"), "a.ktx2.ktx2");
    assert_eq!(renamed("a.jpe"), "a.jpe.ktx2");
}

#[test]
fn short_and_empty_names() {
    assert_eq!(renamed(""), ".ktx2");
    assert_eq!(renamed(".png"), ".ktx2");
    assert_eq!(renamed(".jpeg"), ".ktx2");
    assert_eq!(renamed("jpg"), "jpg.ktx2");
}

#[test]
fn names_beyond_ascii() {
    assert_eq!(renamed("wände.png"), "wände.ktx2");
    assert_eq!(renamed("壁"), "壁.ktx2");
    assert_eq!(renamed("壁.JPG"), "壁.ktx2");
}

#[test]
fn no_name_stays_no_name() {
    assert_eq!(update_image_name_for_ktx2(&None), None);
}

#[test]
fn decimal_numerals() {
    assert_eq!(decimal_text(0), "0");
    assert_eq!(decimal_text(7), "7");
    assert_eq!(decimal_text(10), "10");
    assert_eq!(decimal_text(1234567890), "1234567890");
    assert_eq!(decimal_text(usize::MAX), usize::MAX.to_string());
}

#[test]
fn default_names_are_numbered() {
    assert_eq!(default_image_name(0), "texture_0.ktx2");
    assert_eq!(default_image_name(12), "texture_12.ktx2");
}
