use eframe::egui::ColorImage;
use lust_termina::color::Pixel;
use lust_termina::image;
use lust_termina::image::{IconImage, SourceRect};

/// Two pixels beside each other: red, and blue that is half clear.
fn small_png() -> Vec<u8> {
    vec![
        0x89, 0x50, 0x4e, 0x47, 0x0d, 0x0a, 0x1a, 0x0a, 0x00, 0x00, 0x00, 0x0d,
        0x49, 0x48, 0x44, 0x52, 0x00, 0x00, 0x00, 0x02, 0x00, 0x00, 0x00, 0x01,
        0x08, 0x06, 0x00, 0x00, 0x00, 0xf4, 0x22, 0x7f, 0x8a, 0x00, 0x00, 0x00,
        0x0e, 0x49, 0x44, 0x41, 0x54, 0x78, 0x9c, 0x63, 0xf8, 0xcf, 0xc0, 0x00,
        0x42, 0x0d, 0x00, 0x0f, 0x7a, 0x03, 0x7e, 0x77, 0xe9, 0x7f, 0x97, 0x00,
        0x00, 0x00, 0x00, 0x49, 0x45, 0x4e, 0x44, 0xae, 0x42, 0x60, 0x82,
    ]
}

fn px(r: u8, g: u8, b: u8, a: u8) -> Pixel {
    Pixel { r, g, b, a }
}

#[test]
fn decodes_a_png() {
    let i = image::load_png(&small_png()).unwrap();
    assert_eq!((i.width, i.height), (2, 1));
    assert_eq!(i.pixels, vec![px(255, 0, 0, 255), px(0, 0, 128, 128)]);
}

#[test]
fn what_is_no_png_is_no_image() {
    assert!(image::load_png(&vec![]).is_none());
    assert!(image::load_png(&vec![1, 2, 3]).is_none());
    let mut cut = small_png();
    cut.truncate(40);
    assert!(image::load_png(&cut).is_none());
}

#[test]
fn png_files_are_told_by_their_name() {
    assert!(image::is_png_path("a.PNG"));
    assert!(!image::is_png_path("a.exe"));
    assert!(!image::is_png_path("png"));
}

#[test]
fn loads_from_the_file_or_from_the_program() {
    let program = || Some(IconImage { width: 1, height: 1, pixels: vec![px(1, 2, 3, 255)] });
    let i = image::load_icon_image("a.png", &Some(small_png()), program()).unwrap();
    assert_eq!(i.width, 2);
    assert!(image::load_icon_image("a.png", &None, program()).is_none());
    assert!(image::load_icon_image("a.png", &Some(vec![0]), program()).is_none());
    let i = image::load_icon_image("a.exe", &Some(small_png()), program()).unwrap();
    assert_eq!(i.pixels, vec![px(1, 2, 3, 255)]);
    assert!(image::load_icon_image("a.exe", &None, None).is_none());
}

#[test]
fn pixels_are_those_of_egui() {
    let rgba: Vec<u8> = (0..64u32).map(|k| (k * 37 % 256) as u8).collect();
    let i = image::image_from_rgba(8, 2, &rgba);
    let e = ColorImage::from_rgba_unmultiplied([8, 2], &rgba);
    assert_eq!((i.width, i.height, i.pixels.len()), (8, 2, 16));
    for (a, b) in i.pixels.iter().zip(e.pixels.iter()) {
        assert_eq!((a.r, a.g, a.b, a.a), (b.r(), b.g(), b.b(), b.a()));
    }
}

#[test]
fn bitmaps_swap_red_and_blue() {
    let mut buf = vec![1, 2, 3, 4, 5, 6, 7, 0];
    image::bgra_to_rgba(&mut buf);
    assert_eq!(buf, vec![3, 2, 1, 4, 7, 6, 5, 0]);
}

#[test]
fn bitmaps_without_alpha_become_solid() {
    let mut buf = vec![1, 2, 3, 0, 5, 6, 7, 0];
    image::bgra_to_rgba(&mut buf);
    assert_eq!(buf, vec![3, 2, 1, 255, 7, 6, 5, 255]);
    let i = image::image_from_bitmap(2, 1, vec![1, 2, 3, 0, 5, 6, 7, 0]);
    assert_eq!(i.pixels, vec![px(3, 2, 1, 255), px(7, 6, 5, 255)]);
    assert_eq!(image::bitmap_size(32, 32), 4096);
    assert_eq!(image::bitmap_size(0, 9), 0);
}

#[test]
fn small_images_are_not_scaled() {
    assert!(image::downscale_plan(32, 32, 32).is_none());
    assert!(image::downscale_plan(1, 32, 32).is_none());
    assert!(image::downscale_plan(33, 1, 32).is_some());
    assert!(image::downscale_plan(5, 7, usize::MAX).is_none());
}

#[test]
fn scaling_halves_by_blocks() {
    let plan = image::downscale_plan(4, 4, 2).unwrap();
    assert_eq!(
        plan,
        vec![
            SourceRect { x0: 0, x1: 2, y0: 0, y1: 2 },
            SourceRect { x0: 2, x1: 4, y0: 0, y1: 2 },
            SourceRect { x0: 0, x1: 2, y0: 2, y1: 4 },
            SourceRect { x0: 2, x1: 4, y0: 2, y1: 4 },
        ]
    );
}

#[test]
fn scaling_covers_every_source_pixel() {
    for (w, h) in [(48usize, 48usize), (33, 7), (256, 100), (5, 200)] {
        let plan = image::downscale_plan(w, h, 32).unwrap();
        assert_eq!(plan.len(), 32 * 32);
        let mut seen = vec![false; w * h];
        for r in &plan {
            assert!(r.x0 < r.x1 && r.x1 <= w && r.y0 < r.y1 && r.y1 <= h);
            for y in r.y0..r.y1 {
                for x in r.x0..r.x1 {
                    seen[y * w + x] = true;
                }
            }
        }
        assert!(seen.iter().all(|s| *s));
    }
}

#[test]
fn narrow_sources_repeat_their_pixels() {
    let plan = image::downscale_plan(64, 1, 2).unwrap();
    assert_eq!(plan[0], SourceRect { x0: 0, x1: 32, y0: 0, y1: 1 });
    assert_eq!(plan[3], SourceRect { x0: 32, x1: 64, y0: 0, y1: 1 });
}
