use expiecustwm::animation::SlideAnim;
use expiecustwm::client::{existing_window_candidate, is_dock, is_float_toggle_click, strut_top, supports_delete, Client, Geometry};
use expiecustwm::text::split_whitespace;
use expiecustwm::wallpaper::{rgba_to_zpixmap, wallpaper_image};

#[test]
fn split_on_whitespace() {
    assert_eq!(split_whitespace("  polybar  main\tbar\n"), vec!["polybar", "main", "bar"]);
    assert!(split_whitespace("").is_empty());
    assert!(split_whitespace(" \u{3000} ").is_empty());
    assert_eq!(split_whitespace("a\u{a0}b"), vec!["a", "b"]);
    assert_eq!(split_whitespace("dunst"), vec!["dunst"]);
}

#[test]
fn client_defaults() {
    let c = Client::new(5, 6);
    assert_eq!((c.window, c.frame, c.x, c.y, c.width, c.height), (5, 6, 0, 0, 800, 600));
    assert!(!c.floating && !c.fullscreen && !c.urgent && !c.is_dialog);
}

#[test]
fn client_window_types() {
    let mut c = Client::new(5, 6);
    c.apply_window_types(32, &vec![1, 2], 3);
    assert!(!c.floating);
    c.apply_window_types(32, &vec![1, 3], 3);
    assert!(c.floating && c.is_dialog);
}

#[test]
fn resize_geometry_adds_border() {
    let (frame, inner) = Client::resize_geometry(10, -20, 300, 200, 2);
    assert_eq!(frame, Geometry { x: 10, y: -20, width: 304, height: 204 });
    assert_eq!(inner, Geometry { x: 2, y: 2, width: 300, height: 200 });
}

#[test]
fn property_decisions() {
    assert!(supports_delete(32, &vec![4, 9], 9));
    assert!(!supports_delete(8, &vec![9], 9));
    assert!(!supports_delete(32, &vec![], 9));
    assert!(is_dock(32, &vec![1, 7], 7));
    assert!(!is_dock(32, &vec![1], 7));
    assert_eq!(strut_top(32, &vec![0, 0, 24, 0]), Some(24));
    assert_eq!(strut_top(32, &vec![0, 0, 0, 30]), None);
    assert_eq!(strut_top(8, &vec![]), None);
    assert_eq!(strut_top(32, &vec![]), None);
}

#[test]
fn float_toggle_click() {
    assert!(is_float_toggle_click(1, 64 | 16, 64));
    assert!(!is_float_toggle_click(3, 64, 64));
    assert!(!is_float_toggle_click(1, 8, 64));
}

#[test]
fn animation_advances_to_its_end() {
    let mut a = SlideAnim::new(7, 0, 0, 100, 50, 20, 10, 3);
    assert_eq!(a.frame, 0);
    assert_eq!(a.total_frames, 3);
    assert!(a.advance());
    assert!(a.advance());
    assert!(!a.advance());
    assert_eq!(a.frame, 3);
    assert!(!a.advance());
    assert_eq!(a.frame, 3);
    let b = SlideAnim::new(7, 0, 0, 1, 1, 1, 1, 0);
    assert_eq!(b.total_frames, 1);
}

#[test]
fn zpixmap_byte_orders() {
    let rgba = [1u8, 2, 3, 4, 5, 6, 7, 8, 9];
    assert_eq!(rgba_to_zpixmap(&rgba, true), vec![3, 2, 1, 0, 7, 6, 5, 0]);
    assert_eq!(rgba_to_zpixmap(&rgba, false), vec![0, 1, 2, 3, 0, 5, 6, 7]);
    assert!(rgba_to_zpixmap(&[], true).is_empty());
}

#[test]
fn wallpaper_from_png() {
    let mut img = image::RgbaImage::new(2, 1);
    img.put_pixel(0, 0, image::Rgba([10, 20, 30, 255]));
    img.put_pixel(1, 0, image::Rgba([40, 50, 60, 128]));
    let mut png = std::io::Cursor::new(Vec::new());
    img.write_to(&mut png, image::ImageFormat::Png).unwrap();
    // same size: each pixel shows itself
    let w = wallpaper_image(png.get_ref(), true, 2, 1).unwrap();
    assert_eq!((w.width, w.height), (2, 1));
    assert_eq!(w.data, vec![30, 20, 10, 0, 60, 50, 40, 0]);
    // twice the size: each pixel doubled in both directions
    let w = wallpaper_image(png.get_ref(), false, 4, 2).unwrap();
    assert_eq!((w.width, w.height), (4, 2));
    let row = vec![0, 10, 20, 30, 0, 10, 20, 30, 0, 40, 50, 60, 0, 40, 50, 60];
    assert_eq!(w.data, [row.clone(), row].concat());
    assert!(wallpaper_image(b"not an image", true, 2, 1).is_none());
}

fn png_of(img: &image::RgbaImage) -> Vec<u8> {
    let mut png = std::io::Cursor::new(Vec::new());
    img.write_to(&mut png, image::ImageFormat::Png).unwrap();
    png.into_inner()
}

#[test]
fn wallpaper_fills_by_cropping_the_overhang() {
    // a 4x1 strip on a 2x1 screen: scaled by max(2/4, 1/1) = 1, the middle two
    // pixels are shown
    let mut img = image::RgbaImage::new(4, 1);
    for x in 0..4u32 {
        img.put_pixel(x, 0, image::Rgba([x as u8, 0, 0, 255]));
    }
    let w = wallpaper_image(&png_of(&img), false, 2, 1).unwrap();
    assert_eq!(w.data, vec![0, 1, 0, 0, 0, 2, 0, 0]);
    // a 1x4 column on a 1x2 screen: the middle two rows
    let mut img = image::RgbaImage::new(1, 4);
    for y in 0..4u32 {
        img.put_pixel(0, y, image::Rgba([0, y as u8, 0, 255]));
    }
    let w = wallpaper_image(&png_of(&img), false, 1, 2).unwrap();
    assert_eq!(w.data, vec![0, 0, 1, 0, 0, 0, 2, 0]);
}

#[test]
fn wallpaper_scales_up_the_short_side() {
    // a 2x2 image on a 4x2 screen: scaled by max(4/2, 2/2) = 2 to 4x4, rows 1 and 2 shown
    let mut img = image::RgbaImage::new(2, 2);
    img.put_pixel(0, 0, image::Rgba([1, 0, 0, 255]));
    img.put_pixel(1, 0, image::Rgba([2, 0, 0, 255]));
    img.put_pixel(0, 1, image::Rgba([3, 0, 0, 255]));
    img.put_pixel(1, 1, image::Rgba([4, 0, 0, 255]));
    let w = wallpaper_image(&png_of(&img), false, 4, 2).unwrap();
    let reds: Vec<u8> = w.data.chunks(4).map(|p| p[1]).collect();
    assert_eq!(reds, vec![1, 1, 2, 2, 3, 3, 4, 4]);
}

#[test]
fn existing_window_candidates() {
    assert!(existing_window_candidate(false, false));
    assert!(!existing_window_candidate(true, false));
    assert!(!existing_window_candidate(false, true));
}
