use gltf_opt::codec::{
    can_allocate, compression_profile, dimensions_text, needs_resize, resize_to_jpg,
    resize_to_ktx2, resize_to_png, target_format, CodecStage, CompressionProfile, Ktx2Job,
    TargetFormat, TextureType,
};
use std::cell::RefCell;
use std::io::Cursor;

fn png_rgb(width: u32, height: u32) -> Vec<u8> {
    let mut img = image::RgbImage::new(width, height);
    for (x, y, p) in img.enumerate_pixels_mut() {
        *p = image::Rgb([(x * 30) as u8, (y * 40) as u8, 200]);
    }
    let mut out = Cursor::new(Vec::new());
    image::DynamicImage::ImageRgb8(img).write_to(&mut out, image::ImageFormat::Png).unwrap();
    out.into_inner()
}

fn png_rgba(width: u32, height: u32) -> Vec<u8> {
    let mut img = image::RgbaImage::new(width, height);
    for (x, y, p) in img.enumerate_pixels_mut() {
        *p = image::Rgba([(x * 30) as u8, (y * 40) as u8, 200, 255]);
    }
    let mut out = Cursor::new(Vec::new());
    image::DynamicImage::ImageRgba8(img).write_to(&mut out, image::ImageFormat::Png).unwrap();
    out.into_inner()
}

fn size_of(bytes: &[u8]) -> (u32, u32) {
    let img = image::load_from_memory(bytes).unwrap();
    (img.width(), img.height())
}

#[test]
fn a_picture_is_scaled_only_where_it_is_too_large() {
    assert!(needs_resize(5, 4, 4, 4));
    assert!(needs_resize(4, 5, 4, 4));
    assert!(needs_resize(9, 9, 4, 4));
    assert!(!needs_resize(4, 4, 4, 4));
    assert!(!needs_resize(1, 1, 4, 4));
    assert!(!needs_resize(0, 0, 0, 0));
    assert!(needs_resize(1, 1, 0, 0));
}

#[test]
fn formats_by_role() {
    assert_eq!(target_format(TextureType::BaseColor, false), TargetFormat::Jpeg);
    assert_eq!(target_format(TextureType::MetallicRoughness, false), TargetFormat::Jpeg);
    assert_eq!(target_format(TextureType::Normal, false), TargetFormat::Png);
    assert_eq!(target_format(TextureType::BaseColor, true), TargetFormat::Ktx2);
    assert_eq!(target_format(TextureType::MetallicRoughness, true), TargetFormat::Ktx2);
    assert_eq!(target_format(TextureType::Normal, true), TargetFormat::Ktx2);
}

#[test]
fn mime_types() {
    assert_eq!(TargetFormat::Jpeg.mime_type(), "image/jpeg");
    assert_eq!(TargetFormat::Png.mime_type(), "image/png");
    assert_eq!(TargetFormat::Ktx2.mime_type(), "image/ktx2");
    assert!(TargetFormat::Ktx2.is_ktx2());
    assert!(!TargetFormat::Png.is_ktx2());
    assert!(!TargetFormat::Jpeg.is_ktx2());
}

#[test]
fn normal_maps_get_the_higher_quality() {
    assert_eq!(
        compression_profile(TextureType::Normal),
        CompressionProfile {
            quality_level: 180,
            endpoint_rdo_hundredths: 100,
            selector_rdo_hundredths: 100,
        }
    );
    let standard = CompressionProfile {
        quality_level: 150,
        endpoint_rdo_hundredths: 125,
        selector_rdo_hundredths: 125,
    };
    assert_eq!(compression_profile(TextureType::BaseColor), standard);
    assert_eq!(compression_profile(TextureType::MetallicRoughness), standard);
}

#[test]
fn dimension_labels() {
    assert_eq!(dimensions_text(1024, 512), "1024x512");
    assert_eq!(dimensions_text(0, 7), "0x7");
    assert_eq!(dimensions_text(u32::MAX, u32::MAX), "4294967295x4294967295");
}

#[test]
fn allocation_limit() {
    assert!(can_allocate(0, 0));
    assert!(can_allocate(4096, 4096));
    assert!(can_allocate(u32::MAX, 0));
    assert!(!can_allocate(u32::MAX, u32::MAX));
    assert_eq!(can_allocate(1 << 29, 1 << 29), usize::MAX as u128 >= 1u128 << 63);
}

#[test]
fn jpeg_of_a_large_picture_has_the_target_size() {
    let out = resize_to_jpg(&png_rgb(8, 6), 4, 4).unwrap();
    assert_eq!(image::guess_format(&out).unwrap(), image::ImageFormat::Jpeg);
    assert_eq!(size_of(&out), (4, 4));
}

#[test]
fn jpeg_of_a_small_picture_keeps_its_size() {
    let out = resize_to_jpg(&png_rgb(3, 2), 4, 4).unwrap();
    assert_eq!(image::guess_format(&out).unwrap(), image::ImageFormat::Jpeg);
    assert_eq!(size_of(&out), (3, 2));
    let exact = resize_to_jpg(&png_rgb(4, 4), 4, 4).unwrap();
    assert_eq!(size_of(&exact), (4, 4));
}

#[test]
fn one_long_side_is_enough_to_scale() {
    let out = resize_to_jpg(&png_rgb(8, 2), 4, 4).unwrap();
    assert_eq!(size_of(&out), (4, 4));
    let tall = resize_to_png(&png_rgb(2, 8), 4, 3).unwrap();
    assert_eq!(size_of(&tall), (4, 3));
}

#[test]
fn png_keeps_the_alpha_channel() {
    let out = resize_to_png(&png_rgba(8, 8), 4, 4).unwrap();
    assert_eq!(image::guess_format(&out).unwrap(), image::ImageFormat::Png);
    let img = image::load_from_memory(&out).unwrap();
    assert_eq!((img.width(), img.height()), (4, 4));
    assert_eq!(img.color(), image::ColorType::Rgba8);
}

#[test]
fn png_of_a_small_picture_has_the_same_pixels() {
    let source = png_rgba(3, 2);
    let out = resize_to_png(&source, 4, 4).unwrap();
    let before = image::load_from_memory(&source).unwrap();
    let after = image::load_from_memory(&out).unwrap();
    assert_eq!(before.as_bytes(), after.as_bytes());
    assert_eq!((after.width(), after.height()), (3, 2));
}

#[test]
fn what_is_no_picture_fails_at_decoding() {
    let failure = resize_to_jpg(&[1, 2, 3, 4], 4, 4).unwrap_err();
    assert_eq!(failure.stage, CodecStage::Decode);
    assert!(!failure.message.is_empty());
    assert_eq!(resize_to_png(&[], 4, 4).unwrap_err().stage, CodecStage::Decode);
    let compress = |_job: Ktx2Job| -> Result<Vec<u8>, String> { Ok(vec![]) };
    assert_eq!(
        resize_to_ktx2(&[9, 9], 4, 4, TextureType::Normal, &compress).unwrap_err().stage,
        CodecStage::Decode
    );
}

#[test]
fn jpeg_cannot_take_an_alpha_channel() {
    let failure = resize_to_jpg(&png_rgba(2, 2), 4, 4).unwrap_err();
    assert_eq!(failure.stage, CodecStage::Encode);
}

#[test]
fn the_compressor_gets_a_scaled_job() {
    let seen: RefCell<Vec<Ktx2Job>> = RefCell::new(Vec::new());
    let compress = |job: Ktx2Job| -> Result<Vec<u8>, String> {
        seen.borrow_mut().push(job);
        Ok(vec![0xab, 0xcd])
    };
    let out = resize_to_ktx2(&png_rgb(8, 6), 4, 4, TextureType::Normal, &compress).unwrap();
    assert_eq!(out, vec![0xab, 0xcd]);
    let jobs = seen.borrow();
    assert_eq!(jobs.len(), 1);
    assert_eq!((jobs[0].width, jobs[0].height), (4, 4));
    assert_eq!(jobs[0].rgba.len(), 4 * 4 * 4);
    assert_eq!(jobs[0].profile, compression_profile(TextureType::Normal));
    assert_eq!(jobs[0].tool, "glb_opt");
    assert_eq!(jobs[0].dimensions, "4x4");
    assert_eq!(jobs[0].compression_mode, "ETC1S");
    assert!(!jobs[0].uastc);
    assert!(jobs[0].thread_count >= 1);
}

#[test]
fn the_compressor_gets_a_small_picture_as_it_is() {
    let seen: RefCell<Vec<Ktx2Job>> = RefCell::new(Vec::new());
    let compress = |job: Ktx2Job| -> Result<Vec<u8>, String> {
        seen.borrow_mut().push(job);
        Ok(vec![1])
    };
    resize_to_ktx2(&png_rgb(3, 2), 4, 4, TextureType::BaseColor, &compress).unwrap();
    let jobs = seen.borrow();
    assert_eq!((jobs[0].width, jobs[0].height), (3, 2));
    assert_eq!(jobs[0].dimensions, "3x2");
    assert_eq!(jobs[0].profile, compression_profile(TextureType::BaseColor));
    let expected = image::load_from_memory(&png_rgb(3, 2)).unwrap().to_rgba8().into_raw();
    assert_eq!(jobs[0].rgba, expected);
}

#[test]
fn a_failing_compressor_fails_the_conversion() {
    let compress = |_job: Ktx2Job| -> Result<Vec<u8>, String> { Err("no luck".to_string()) };
    let failure =
        resize_to_ktx2(&png_rgb(3, 2), 4, 4, TextureType::BaseColor, &compress).unwrap_err();
    assert_eq!(failure.stage, CodecStage::Encode);
    assert_eq!(failure.message, "no luck");
}

#[test]
fn a_target_of_zero_is_survived() {
    let jpeg = resize_to_jpg(&png_rgb(8, 8), 0, 0);
    let png = resize_to_png(&png_rgb(8, 8), 0, 0);
    assert!(jpeg.map_or(true, |bytes| !bytes.is_empty()));
    assert!(png.map_or(true, |bytes| !bytes.is_empty()));
    let seen: RefCell<Vec<Ktx2Job>> = RefCell::new(Vec::new());
    let compress = |job: Ktx2Job| -> Result<Vec<u8>, String> {
        seen.borrow_mut().push(job);
        Ok(vec![1])
    };
    resize_to_ktx2(&png_rgb(8, 8), 0, 0, TextureType::MetallicRoughness, &compress).unwrap();
    let jobs = seen.borrow();
    assert_eq!((jobs[0].width, jobs[0].height), (0, 0));
    assert_eq!(jobs[0].rgba, Vec::<u8>::new());
    assert_eq!(jobs[0].dimensions, "0x0");
}

#[test]
fn a_huge_target_leaves_a_small_picture_alone() {
    let out = resize_to_png(&png_rgb(3, 2), u32::MAX, u32::MAX).unwrap();
    assert_eq!(size_of(&out), (3, 2));
}

#[test]
fn scaling_keeps_the_colour_of_a_plain_picture() {
    let mut img = image::RgbImage::new(8, 8);
    for p in img.pixels_mut() {
        *p = image::Rgb([250, 120, 10]);
    }
    let mut source = Cursor::new(Vec::new());
    image::DynamicImage::ImageRgb8(img).write_to(&mut source, image::ImageFormat::Png).unwrap();
    let out = resize_to_png(&source.into_inner(), 4, 4).unwrap();
    let scaled = image::load_from_memory(&out).unwrap().to_rgb8();
    assert_eq!((scaled.width(), scaled.height()), (4, 4));
    for p in scaled.pixels() {
        assert_eq!(*p, image::Rgb([250, 120, 10]));
    }
    let seen: RefCell<Vec<Ktx2Job>> = RefCell::new(Vec::new());
    let compress = |job: Ktx2Job| -> Result<Vec<u8>, String> {
        seen.borrow_mut().push(job);
        Ok(vec![1])
    };
    let mut rgb = image::RgbImage::new(6, 6);
    for p in rgb.pixels_mut() {
        *p = image::Rgb([9, 8, 7]);
    }
    let mut plain = Cursor::new(Vec::new());
    image::DynamicImage::ImageRgb8(rgb).write_to(&mut plain, image::ImageFormat::Png).unwrap();
    resize_to_ktx2(&plain.into_inner(), 2, 2, TextureType::BaseColor, &compress).unwrap();
    assert_eq!(seen.borrow()[0].rgba, [9u8, 8, 7, 255].repeat(4));
}
