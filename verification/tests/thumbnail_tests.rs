use headshot::thumbnail::{
    fits_scaling, make_thumbnail, PixelFormat, ThumbnailImage, THUMBNAIL_SIDE,
};
use image::{DynamicImage, ImageBuffer, Luma, Rgb, RgbImage, Rgba, RgbaImage};

fn check(width: u32, height: u32, expected: (u32, u32)) {
    let thumb = make_thumbnail(&DynamicImage::new_rgb8(width, height)).unwrap();
    assert_eq!((thumb.width, thumb.height), expected, "{}x{}", width, height);
    assert_eq!(thumb.pixels.len(), 4 * expected.0 as usize * expected.1 as usize);
}

#[test]
fn thumbnail_side_is_128() {
    assert_eq!(THUMBNAIL_SIDE, 128);
}

#[test]
fn landscape_is_scaled_to_width_128() {
    check(640, 480, (128, 96));
    check(1920, 1080, (128, 72));
}

#[test]
fn portrait_is_scaled_to_height_128() {
    check(480, 640, (96, 128));
    check(100, 400, (32, 128));
}

#[test]
fn square_fills_the_box() {
    check(512, 512, (128, 128));
    check(128, 128, (128, 128));
}

#[test]
fn extreme_aspect_keeps_at_least_one_pixel() {
    check(4000, 2, (128, 1));
    check(1, 3000, (1, 128));
}

#[test]
fn thumbnails_fit_the_box_for_many_sizes() {
    for width in [1u32, 2, 3, 64, 127, 128, 129, 200, 333, 1000] {
        for height in [1u32, 2, 5, 100, 128, 130, 257, 999] {
            let thumb = make_thumbnail(&DynamicImage::new_rgba8(width, height)).unwrap();
            assert!(thumb.width >= 1 && thumb.width <= 128);
            assert!(thumb.height >= 1 && thumb.height <= 128);
            assert_eq!(thumb.pixels.len(), 4 * (thumb.width * thumb.height) as usize);
        }
    }
}

#[test]
fn uniform_picture_gives_uniform_thumbnail() {
    let picture = RgbaImage::from_pixel(300, 200, Rgba([10, 20, 30, 255]));
    let thumb = make_thumbnail(&DynamicImage::ImageRgba8(picture)).unwrap();
    assert_eq!((thumb.width, thumb.height), (128, 85));
    assert!(thumb.pixels.chunks(4).all(|p| p == [10, 20, 30, 255]));
}

#[test]
fn opaque_source_gets_full_alpha() {
    let picture = RgbImage::from_pixel(256, 256, Rgb([200, 100, 50]));
    let thumb = make_thumbnail(&DynamicImage::ImageRgb8(picture)).unwrap();
    assert!(thumb.pixels.chunks(4).all(|p| p == [200, 100, 50, 255]));
}

#[test]
fn halves_of_a_picture_stay_apart() {
    let mut picture = RgbImage::from_pixel(256, 128, Rgb([0, 0, 0]));
    for y in 0..128 {
        for x in 128..256 {
            picture.put_pixel(x, y, Rgb([255, 255, 255]));
        }
    }
    let thumb = make_thumbnail(&DynamicImage::ImageRgb8(picture)).unwrap();
    assert_eq!((thumb.width, thumb.height), (128, 64));
    let at = |x: usize, y: usize| thumb.pixels[4 * (y * 128 + x)];
    assert_eq!(at(10, 10), 0);
    assert_eq!(at(100, 50), 255);
}

#[test]
fn same_picture_gives_the_same_thumbnail() {
    let picture = DynamicImage::ImageRgb8(RgbImage::from_fn(90, 77, |x, y| {
        Rgb([(x * 3) as u8, (y * 2) as u8, (x + y) as u8])
    }));
    let first = make_thumbnail(&picture);
    assert!(first.is_some());
    assert_eq!(first, make_thumbnail(&picture));
}

#[test]
fn from_rgba_takes_bytes_that_fit() {
    let made = ThumbnailImage::from_rgba(2, 3, vec![0; 24]).unwrap();
    assert_eq!((made.width, made.height, made.pixels.len()), (2, 3, 24));
    assert!(ThumbnailImage::from_rgba(128, 128, vec![0; 65536]).is_some());
    assert!(ThumbnailImage::from_rgba(0, 0, vec![]).is_some());
}

#[test]
fn from_rgba_refuses_bytes_that_do_not_fit() {
    assert!(ThumbnailImage::from_rgba(2, 3, vec![0; 23]).is_none());
    assert!(ThumbnailImage::from_rgba(2, 3, vec![0; 25]).is_none());
    assert!(ThumbnailImage::from_rgba(129, 1, vec![0; 516]).is_none());
    assert!(ThumbnailImage::from_rgba(1, 129, vec![0; 516]).is_none());
    assert!(ThumbnailImage::from_rgba(u32::MAX, u32::MAX, vec![]).is_none());
}

#[test]
fn picture_without_pixels_gives_a_single_pixel() {
    check(0, 0, (1, 1));
    check(0, 50, (1, 128));
}

#[test]
fn eight_bit_picture_is_scaled_up_to_the_longest_side() {
    let thumb = make_thumbnail(&DynamicImage::new_luma8(65535, 2)).unwrap();
    assert_eq!((thumb.width, thumb.height), (128, 1));
    assert!(make_thumbnail(&DynamicImage::new_luma8(65536, 2)).is_none());
    assert!(make_thumbnail(&DynamicImage::new_rgb8(1, 65536)).is_none());
}

#[test]
fn sixteen_bit_picture_is_scaled_up_to_two_hundred_times_the_side() {
    let thumb = make_thumbnail(&DynamicImage::new_luma16(25600, 3)).unwrap();
    assert_eq!((thumb.width, thumb.height), (128, 1));
    assert!(make_thumbnail(&DynamicImage::new_luma16(25601, 3)).is_none());
    assert!(make_thumbnail(&DynamicImage::new_rgb16(2, 25601)).is_none());
    assert!(make_thumbnail(&DynamicImage::new_rgba16(300, 200)).is_some());
}

#[test]
fn bright_sixteen_bit_picture_at_the_bound_does_not_overflow() {
    let white: ImageBuffer<Luma<u16>, Vec<u16>> =
        ImageBuffer::from_pixel(25600, 299, Luma([u16::MAX]));
    let thumb = make_thumbnail(&DynamicImage::ImageLuma16(white)).unwrap();
    assert_eq!((thumb.width, thumb.height), (128, 1));
    assert!(thumb.pixels.iter().all(|&byte| byte == 255));
    let square: ImageBuffer<Luma<u16>, Vec<u16>> =
        ImageBuffer::from_pixel(2571, 2571, Luma([u16::MAX]));
    let thumb = make_thumbnail(&DynamicImage::ImageLuma16(square)).unwrap();
    assert_eq!((thumb.width, thumb.height), (128, 128));
    assert!(thumb.pixels.iter().all(|&byte| byte == 255));
}

#[test]
fn floating_point_picture_gets_no_thumbnail() {
    assert!(make_thumbnail(&DynamicImage::new_rgb32f(10, 10)).is_none());
    assert!(make_thumbnail(&DynamicImage::new_rgba32f(10, 10)).is_none());
}

#[test]
fn fits_scaling_bounds_size_by_sample_depth() {
    for format in [PixelFormat::L8, PixelFormat::La8, PixelFormat::Rgb8, PixelFormat::Rgba8] {
        assert!(fits_scaling(0, 0, format, 128));
        assert!(fits_scaling(65535, 65535, format, 128));
        assert!(!fits_scaling(65536, 1, format, 128));
        assert!(fits_scaling(3000, 1, format, 1));
        assert!(!fits_scaling(3001, 1, format, 1));
        assert!(!fits_scaling(1, 3001, format, 1));
    }
    for format in [PixelFormat::L16, PixelFormat::La16, PixelFormat::Rgb16, PixelFormat::Rgba16] {
        assert!(fits_scaling(25600, 25600, format, 128));
        assert!(!fits_scaling(25601, 1, format, 128));
        assert!(fits_scaling(200, 200, format, 1));
        assert!(!fits_scaling(257, 257, format, 1));
        assert!(fits_scaling(65535, 1, format, 4096));
        assert!(!fits_scaling(65536, 1, format, 4096));
    }
    for format in [PixelFormat::Rgb32F, PixelFormat::Rgba32F, PixelFormat::Unknown] {
        assert!(!fits_scaling(10, 10, format, 128));
        assert!(!fits_scaling(0, 0, format, 128));
    }
    assert!(fits_scaling(u32::MAX / 2, 1, PixelFormat::Rgb8, u32::MAX) == false);
}
