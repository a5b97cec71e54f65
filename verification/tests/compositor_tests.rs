use jacket_process::color::{Color, FrameChoice};
use jacket_process::compositor::{compose, composite, plan_border, process_image, BorderPlan};
use jacket_process::error::ImageError;
use jacket_process::geometry::{border_layout, Layout, Rectangle, MAX_COORD};
use jacket_process::raster::{Canvas, Resampling, MAX_LANCZOS_SIDE};

const CLEAR: Color = Color { r: 0, g: 0, b: 0, a: 0 };

fn rgb(r: u8, g: u8, b: u8) -> Color {
    Color { r, g, b, a: 255 }
}

fn painted(width: u32, height: u32, f: fn(u32, u32) -> Color) -> Canvas {
    let mut data = Vec::new();
    for y in 0..height {
        for x in 0..width {
            let c = f(x, y);
            data.extend_from_slice(&[c.r, c.g, c.b, c.a]);
        }
    }
    Canvas::from_raw(width, height, data).unwrap()
}

fn filled(width: u32, height: u32, c: Color) -> Canvas {
    let mut data = Vec::new();
    for _ in 0..(width as usize * height as usize) {
        data.extend_from_slice(&[c.r, c.g, c.b, c.a]);
    }
    Canvas::from_raw(width, height, data).unwrap()
}

fn small_layout() -> Layout {
    Layout {
        half: 4,
        frame_offset: 3,
        frame_side: 10,
        stroke: 1,
        gap: 1,
        inner: Rectangle { left: 2, top: 2, width: 12, height: 12 },
        outer: Rectangle { left: 1, top: 1, width: 14, height: 14 },
    }
}

fn artwork_pixel(x: u32, y: u32) -> Color {
    Color { r: 100 + x as u8, g: 150 + y as u8, b: 7, a: 255 }
}

fn background_pixel(x: u32, y: u32) -> Color {
    Color { r: x as u8, g: y as u8, b: 99, a: 255 }
}

// Left half clear, right half opaque, 10 x 10.
fn frame_pixel(x: u32, _y: u32) -> Color {
    if x < 5 {
        CLEAR
    } else {
        Color { r: 250, g: 240, b: 230, a: 255 }
    }
}

#[test]
fn composite_places_every_layer() {
    let background = painted(16, 16, background_pixel);
    let artwork = painted(8, 8, artwork_pixel);
    let frame = painted(10, 10, frame_pixel);
    let ink = rgb(1, 2, 3);
    let layout = small_layout();
    let out = composite(background, &artwork, &frame, ink, layout).unwrap();
    assert_eq!((out.width(), out.height()), (16, 16));
    for y in 0..16u32 {
        for x in 0..16u32 {
            let on_inner = (2..14).contains(&x)
                && (2..14).contains(&y)
                && (x == 2 || x == 13 || y == 2 || y == 13);
            let on_outer = (1..15).contains(&x)
                && (1..15).contains(&y)
                && (x == 1 || x == 14 || y == 1 || y == 14);
            let want = if on_inner || on_outer {
                ink
            } else {
                let under = if (4..12).contains(&x) && (4..12).contains(&y) {
                    artwork_pixel(x - 4, y - 4)
                } else {
                    background_pixel(x, y)
                };
                if (3..13).contains(&x) && (3..13).contains(&y) {
                    let over = frame_pixel(x - 3, y - 3);
                    if over.a == 0 {
                        under
                    } else {
                        over
                    }
                } else {
                    under
                }
            };
            assert_eq!(out.get_pixel(x, y), Some(want), "at ({}, {})", x, y);
        }
    }
}

#[test]
fn composite_pastes_artwork_without_blending() {
    let background = filled(16, 16, rgb(9, 9, 9));
    let artwork = filled(8, 8, Color { r: 50, g: 60, b: 70, a: 10 });
    let frame = filled(10, 10, CLEAR);
    let out = composite(background, &artwork, &frame, rgb(1, 2, 3), small_layout()).unwrap();
    assert_eq!(out.get_pixel(5, 5), Some(Color { r: 50, g: 60, b: 70, a: 10 }));
    assert_eq!(out.get_pixel(11, 11), Some(Color { r: 50, g: 60, b: 70, a: 10 }));
    assert_eq!(out.get_pixel(12, 12), Some(rgb(9, 9, 9)));
    assert_eq!(out.get_pixel(3, 3), Some(rgb(9, 9, 9)));
}

#[test]
fn composite_blends_a_translucent_frame() {
    let background = filled(16, 16, rgb(0, 0, 0));
    let artwork = filled(8, 8, rgb(0, 0, 0));
    let frame = filled(10, 10, Color { r: 255, g: 255, b: 255, a: 128 });
    let out = composite(background, &artwork, &frame, rgb(1, 2, 3), small_layout()).unwrap();
    let mixed = out.get_pixel(6, 6).unwrap();
    assert!(mixed.r >= 127 && mixed.r <= 129, "{:?}", mixed);
    assert_eq!(mixed.r, mixed.g);
    assert_eq!(mixed.g, mixed.b);
    assert!(mixed.a >= 254, "{:?}", mixed);
    assert_ne!(mixed, rgb(0, 0, 0));
    assert_ne!(mixed, Color { r: 255, g: 255, b: 255, a: 128 });
    // Outside the frame nothing is mixed in.
    assert_eq!(out.get_pixel(0, 0), Some(rgb(0, 0, 0)));
    assert_eq!(out.get_pixel(15, 15), Some(rgb(0, 0, 0)));
}

#[test]
fn composite_draws_the_border_opaque() {
    let background = filled(16, 16, rgb(9, 9, 9));
    let artwork = filled(8, 8, rgb(50, 60, 70));
    let frame = filled(10, 10, CLEAR);
    let faint = Color { r: 1, g: 2, b: 3, a: 0 };
    let out = composite(background, &artwork, &frame, faint, small_layout()).unwrap();
    assert_eq!(out.get_pixel(1, 1), Some(rgb(1, 2, 3)));
    assert_eq!(out.get_pixel(2, 2), Some(rgb(1, 2, 3)));
    assert_eq!(out.get_pixel(13, 7), Some(rgb(1, 2, 3)));
}

#[test]
fn composite_border_covers_frame_and_artwork() {
    let background = filled(16, 16, rgb(9, 9, 9));
    let artwork = filled(8, 8, rgb(50, 60, 70));
    let frame = filled(10, 10, rgb(200, 200, 200));
    let mut layout = small_layout();
    layout.stroke = 3;
    let out = composite(background, &artwork, &frame, rgb(1, 2, 3), layout).unwrap();
    // Inner stroke reaches x = 2, 3, 4: over frame (from 3) and artwork (from 4).
    assert_eq!(out.get_pixel(3, 8), Some(rgb(1, 2, 3)));
    assert_eq!(out.get_pixel(4, 8), Some(rgb(1, 2, 3)));
    assert_eq!(out.get_pixel(5, 8), Some(rgb(200, 200, 200)));
}

#[test]
fn composite_refuses_outlines_it_cannot_place() {
    let mut layout = small_layout();
    layout.outer = Rectangle { left: MAX_COORD, top: 0, width: 5, height: 5 };
    let res = composite(
        filled(16, 16, rgb(9, 9, 9)),
        &filled(8, 8, rgb(1, 1, 1)),
        &filled(10, 10, CLEAR),
        rgb(1, 2, 3),
        layout,
    );
    assert_eq!(res.err(), Some(ImageError::InvalidDimensions));
    let mut layout = small_layout();
    layout.inner = Rectangle { left: 0, top: -MAX_COORD - 1, width: 5, height: 5 };
    let res = composite(
        filled(16, 16, rgb(9, 9, 9)),
        &filled(8, 8, rgb(1, 1, 1)),
        &filled(10, 10, CLEAR),
        rgb(1, 2, 3),
        layout,
    );
    assert_eq!(res.err(), Some(ImageError::InvalidDimensions));
}

#[test]
fn compose_lays_out_around_the_artwork() {
    let blurred = filled(100, 100, rgb(80, 90, 100));
    let artwork = painted(100, 100, |x, y| Color { r: x as u8, g: y as u8, b: 200, a: 255 });
    let frame = filled(10, 10, CLEAR);
    let ink = rgb(1, 2, 3);
    let out = compose(&blurred, &artwork, &frame, ink).unwrap();
    assert_eq!((out.width(), out.height()), (200, 200));
    let layout = border_layout(100).unwrap();
    assert_eq!(layout.inner, Rectangle { left: 46, top: 46, width: 108, height: 108 });
    assert_eq!(layout.outer, Rectangle { left: 44, top: 44, width: 112, height: 112 });
    assert_eq!(layout.stroke, 1);
    // Outlines.
    for (x, y) in [(46, 46), (153, 153), (46, 100), (100, 153), (44, 44), (155, 155), (155, 60)] {
        assert_eq!(out.get_pixel(x, y), Some(ink), "at ({}, {})", x, y);
    }
    // Background between and around the outlines.
    for (x, y) in [(0, 0), (199, 199), (45, 45), (43, 43), (47, 47), (49, 49), (154, 154)] {
        assert_eq!(out.get_pixel(x, y), Some(rgb(80, 90, 100)), "at ({}, {})", x, y);
    }
    // Artwork at offset 50.
    assert_eq!(out.get_pixel(50, 50), Some(Color { r: 0, g: 0, b: 200, a: 255 }));
    assert_eq!(out.get_pixel(149, 149), Some(Color { r: 99, g: 99, b: 200, a: 255 }));
    assert_eq!(out.get_pixel(60, 120), Some(Color { r: 10, g: 70, b: 200, a: 255 }));
    assert_eq!(out.get_pixel(150, 150), Some(rgb(80, 90, 100)));
}

#[test]
fn compose_resizes_the_frame_to_the_layout() {
    let blurred = filled(100, 100, rgb(80, 90, 100));
    let artwork = filled(100, 100, rgb(10, 20, 30));
    let frame = filled(16, 16, rgb(250, 240, 230));
    let ink = rgb(1, 2, 3);
    let out = compose(&blurred, &artwork, &frame, ink).unwrap();
    // Frame: offset 37, side 125, so it covers 37..162.
    assert_eq!(out.get_pixel(36, 36), Some(rgb(80, 90, 100)));
    assert_eq!(out.get_pixel(37, 37), Some(rgb(250, 240, 230)));
    assert_eq!(out.get_pixel(100, 100), Some(rgb(250, 240, 230)));
    assert_eq!(out.get_pixel(161, 161), Some(rgb(250, 240, 230)));
    assert_eq!(out.get_pixel(162, 162), Some(rgb(80, 90, 100)));
    assert_eq!(out.get_pixel(46, 46), Some(ink));
    assert_eq!(out.get_pixel(44, 90), Some(ink));
}

#[test]
fn compose_doubles_a_background_of_any_size() {
    let blurred = filled(7, 3, rgb(80, 90, 100));
    let artwork = filled(40, 30, rgb(10, 20, 30));
    let frame = filled(4, 4, CLEAR);
    let out = compose(&blurred, &artwork, &frame, rgb(1, 2, 3)).unwrap();
    assert_eq!((out.width(), out.height()), (80, 60));
    assert_eq!(out.get_pixel(0, 0), Some(rgb(80, 90, 100)));
    // Artwork at offset 20 on both axes.
    assert_eq!(out.get_pixel(20, 20), Some(rgb(10, 20, 30)));
    assert_eq!(out.get_pixel(59, 49), Some(rgb(10, 20, 30)));
    // Width 40 puts the one outline there is at 18..61.
    assert_eq!(out.get_pixel(60, 49), Some(rgb(1, 2, 3)));
    assert_eq!(out.get_pixel(61, 49), Some(rgb(80, 90, 100)));
}

#[test]
fn compose_with_artwork_of_no_height() {
    let blurred = filled(10, 10, rgb(80, 90, 100));
    let artwork = Canvas::from_raw(12, 0, vec![]).unwrap();
    let frame = filled(4, 4, rgb(1, 1, 1));
    let out = compose(&blurred, &artwork, &frame, rgb(1, 2, 3)).unwrap();
    assert_eq!((out.width(), out.height()), (24, 0));
}

#[test]
fn compose_with_empty_background_and_frame() {
    let blurred = Canvas::from_raw(0, 0, vec![]).unwrap();
    let artwork = filled(10, 10, rgb(10, 20, 30));
    let frame = Canvas::from_raw(0, 0, vec![]).unwrap();
    let out = compose(&blurred, &artwork, &frame, rgb(1, 2, 3)).unwrap();
    assert_eq!((out.width(), out.height()), (20, 20));
    assert_eq!(out.get_pixel(5, 5), Some(rgb(10, 20, 30)));
    // Width 10: one outline at 4..14, one pixel thick.
    assert_eq!(out.get_pixel(4, 4), Some(rgb(1, 2, 3)));
    assert_eq!(out.get_pixel(13, 13), Some(rgb(1, 2, 3)));
    assert_eq!(out.get_pixel(0, 0), Some(Color { r: 0, g: 0, b: 0, a: 0 }));
}

#[test]
fn compose_refuses_empty_artwork() {
    let blurred = filled(10, 10, rgb(80, 90, 100));
    let artwork = Canvas::from_raw(0, 0, vec![]).unwrap();
    let frame = filled(4, 4, CLEAR);
    let res = compose(&blurred, &artwork, &frame, rgb(1, 2, 3));
    assert_eq!(res.err(), Some(ImageError::InvalidDimensions));
}

#[test]
fn compose_twice_gives_the_same_bytes() {
    let blurred = painted(70, 70, |x, y| Color { r: x as u8, g: y as u8, b: 3, a: 255 });
    let artwork = painted(70, 70, |x, y| Color { r: (x * 3) as u8, g: (y * 2) as u8, b: 9, a: 255 });
    let frame = painted(20, 20, |x, y| Color { r: 200, g: 100, b: 50, a: ((x + y) * 6) as u8 });
    let ink = rgb(1, 2, 3);
    let first = compose(&blurred, &artwork, &frame, ink).unwrap().into_raw();
    let second = compose(&blurred, &artwork, &frame, ink).unwrap().into_raw();
    assert_eq!(first, second);
}

#[test]
fn plan_for_a_light_background() {
    let blurred = filled(61, 61, rgb(220, 220, 220));
    assert_eq!(
        plan_border(&blurred),
        Ok(BorderPlan { color: rgb(165, 165, 165), frame: FrameChoice::DarkBackground })
    );
}

#[test]
fn plan_for_a_dark_background() {
    let blurred = filled(61, 61, rgb(10, 10, 10));
    assert_eq!(
        plan_border(&blurred),
        Ok(BorderPlan { color: rgb(60, 60, 60), frame: FrameChoice::LightBackground })
    );
}

#[test]
fn plan_at_the_frame_boundary() {
    let blurred = filled(61, 61, rgb(128, 128, 128));
    assert_eq!(
        plan_border(&blurred),
        Ok(BorderPlan { color: rgb(128, 128, 128), frame: FrameChoice::LightBackground })
    );
    let blurred = filled(61, 61, rgb(129, 129, 129));
    assert_eq!(
        plan_border(&blurred),
        Ok(BorderPlan { color: rgb(129, 129, 129), frame: FrameChoice::DarkBackground })
    );
}

#[test]
fn plan_needs_a_ring() {
    let blurred = filled(60, 61, rgb(128, 128, 128));
    assert_eq!(plan_border(&blurred), Err(ImageError::InvalidDimensions));
}

#[test]
fn missing_dark_frame_matters_above_128() {
    let blurred = filled(70, 70, rgb(200, 200, 200));
    let artwork = filled(70, 70, rgb(10, 20, 30));
    let light = filled(8, 8, CLEAR);
    let res = process_image(&artwork, &blurred, Some(&light), None);
    assert_eq!(res.err(), Some(ImageError::AssetLoad));
}

#[test]
fn missing_dark_frame_is_ignored_up_to_128() {
    let artwork = filled(70, 70, rgb(10, 20, 30));
    let light = filled(8, 8, CLEAR);
    let blurred = filled(70, 70, rgb(128, 128, 128));
    assert!(process_image(&artwork, &blurred, Some(&light), None).is_ok());
    let blurred = filled(70, 70, rgb(30, 30, 30));
    assert!(process_image(&artwork, &blurred, Some(&light), None).is_ok());
}

#[test]
fn missing_light_frame_matters_up_to_128() {
    let artwork = filled(70, 70, rgb(10, 20, 30));
    let dark = filled(8, 8, CLEAR);
    let blurred = filled(70, 70, rgb(128, 128, 128));
    let res = process_image(&artwork, &blurred, None, Some(&dark));
    assert_eq!(res.err(), Some(ImageError::AssetLoad));
    let blurred = filled(70, 70, rgb(129, 129, 129));
    assert!(process_image(&artwork, &blurred, None, Some(&dark)).is_ok());
}

#[test]
fn process_image_uses_the_chosen_frame_and_colour() {
    let artwork = filled(100, 100, rgb(10, 20, 30));
    let light = filled(8, 8, rgb(255, 0, 0));
    let dark = filled(8, 8, rgb(0, 0, 255));
    // Brightness 220: darkened border, dark-background frame.
    let blurred = filled(100, 100, rgb(220, 220, 220));
    let out = process_image(&artwork, &blurred, Some(&light), Some(&dark)).unwrap();
    assert_eq!((out.width(), out.height()), (200, 200));
    assert_eq!(out.get_pixel(100, 100), Some(rgb(0, 0, 255)));
    assert_eq!(out.get_pixel(46, 46), Some(rgb(165, 165, 165)));
    assert_eq!(out.get_pixel(44, 44), Some(rgb(165, 165, 165)));
    assert_eq!(out.get_pixel(0, 0), Some(rgb(220, 220, 220)));
    // Brightness 100: border as sampled, light-background frame.
    let blurred = filled(100, 100, rgb(100, 100, 100));
    let out = process_image(&artwork, &blurred, Some(&light), Some(&dark)).unwrap();
    assert_eq!(out.get_pixel(100, 100), Some(rgb(255, 0, 0)));
    assert_eq!(out.get_pixel(46, 46), Some(rgb(100, 100, 100)));
    assert_eq!(out.get_pixel(0, 0), Some(rgb(100, 100, 100)));
}

#[test]
fn process_image_needs_a_ring_before_anything_else() {
    let artwork = filled(70, 70, rgb(10, 20, 30));
    let blurred = filled(60, 60, rgb(200, 200, 200));
    let res = process_image(&artwork, &blurred, None, None);
    assert_eq!(res.err(), Some(ImageError::InvalidDimensions));
}

#[test]
fn process_image_twice_gives_the_same_bytes() {
    let blurred = painted(90, 90, |x, y| Color { r: (x * 2) as u8, g: (y * 2) as u8, b: 3, a: 255 });
    let artwork = painted(90, 90, |x, y| Color { r: x as u8, g: y as u8, b: 9, a: 255 });
    let light = painted(20, 20, |x, y| Color { r: 200, g: 100, b: 50, a: ((x + y) * 6) as u8 });
    let dark = painted(20, 20, |x, y| Color { r: 20, g: 10, b: 5, a: ((x * y) % 256) as u8 });
    let first = process_image(&artwork, &blurred, Some(&light), Some(&dark)).unwrap().into_raw();
    let second = process_image(&artwork, &blurred, Some(&light), Some(&dark)).unwrap().into_raw();
    assert_eq!(first, second);
}

fn patterned_frame(tint: u8) -> Canvas {
    // Side 125: the size the layout gives for artwork 100 wide.
    let mut data = Vec::new();
    for y in 0..125u32 {
        for x in 0..125u32 {
            let alpha = if (x + y) % 3 == 0 { 0 } else { 255 };
            data.extend_from_slice(&[tint, x as u8, y as u8, alpha]);
        }
    }
    Canvas::from_raw(125, 125, data).unwrap()
}

fn striped_artwork() -> Canvas {
    painted(100, 100, |x, y| Color { r: (x * 2) as u8, g: (y * 2) as u8, b: 77, a: 255 })
}

#[test]
fn a_frame_of_the_final_size_is_laid_on_as_it_is() {
    let blurred = filled(100, 100, rgb(80, 90, 100));
    let artwork = striped_artwork();
    let frame = patterned_frame(33);
    let ink = rgb(1, 2, 3);
    let out = compose(&blurred, &artwork, &frame, ink).unwrap();
    for y in 0..200u32 {
        for x in 0..200u32 {
            let on_inner = (46..154).contains(&x)
                && (46..154).contains(&y)
                && (x == 46 || x == 153 || y == 46 || y == 153);
            let on_outer = (44..156).contains(&x)
                && (44..156).contains(&y)
                && (x == 44 || x == 155 || y == 44 || y == 155);
            let want = if on_inner || on_outer {
                ink
            } else {
                let under = if (50..150).contains(&x) && (50..150).contains(&y) {
                    artwork.get_pixel(x - 50, y - 50).unwrap()
                } else {
                    rgb(80, 90, 100)
                };
                if (37..162).contains(&x) && (37..162).contains(&y) {
                    let over = frame.get_pixel(x - 37, y - 37).unwrap();
                    if over.a == 0 {
                        under
                    } else {
                        over
                    }
                } else {
                    under
                }
            };
            assert_eq!(out.get_pixel(x, y), Some(want), "at ({}, {})", x, y);
        }
    }
}

#[test]
fn background_is_the_blurred_image_doubled() {
    let blurred = painted(100, 100, |x, y| Color { r: x as u8, g: y as u8, b: 5, a: 255 });
    let artwork = filled(100, 100, rgb(10, 20, 30));
    let frame = filled(125, 125, CLEAR);
    let out = compose(&blurred, &artwork, &frame, rgb(1, 2, 3)).unwrap();
    let doubled = blurred.resized(200, 200, Resampling::Nearest).unwrap();
    for (x, y) in [(0, 0), (1, 1), (43, 43), (45, 199), (199, 0), (160, 20), (199, 199)] {
        assert_eq!(out.get_pixel(x, y), doubled.get_pixel(x, y), "at ({}, {})", x, y);
        assert_eq!(out.get_pixel(x, y), blurred.get_pixel(x / 2, y / 2), "at ({}, {})", x, y);
    }
}

#[test]
fn at_128_the_light_frame_is_the_one_laid_on() {
    let artwork = striped_artwork();
    let light = patterned_frame(201);
    let dark = patterned_frame(17);
    let blurred = filled(100, 100, rgb(128, 128, 128));
    let out = process_image(&artwork, &blurred, Some(&light), Some(&dark)).unwrap();
    // (38, 38): frame pixel (1, 1), opaque.
    assert_eq!(out.get_pixel(38, 38), light.get_pixel(1, 1));
    assert_eq!(out.get_pixel(100, 101), light.get_pixel(63, 64));
    assert_eq!(out.get_pixel(46, 46), Some(rgb(128, 128, 128)));
    let same = compose(&blurred, &artwork, &light, rgb(128, 128, 128)).unwrap();
    assert_eq!(out.into_raw(), same.into_raw());
}

#[test]
fn at_129_the_dark_frame_is_the_one_laid_on() {
    let artwork = striped_artwork();
    let light = patterned_frame(201);
    let dark = patterned_frame(17);
    let blurred = filled(100, 100, rgb(129, 129, 129));
    let out = process_image(&artwork, &blurred, Some(&light), Some(&dark)).unwrap();
    assert_eq!(out.get_pixel(38, 38), dark.get_pixel(1, 1));
    assert_eq!(out.get_pixel(100, 101), dark.get_pixel(63, 64));
    assert_eq!(out.get_pixel(46, 46), Some(rgb(129, 129, 129)));
    let same = compose(&blurred, &artwork, &dark, rgb(129, 129, 129)).unwrap();
    assert_eq!(out.into_raw(), same.into_raw());
}

#[test]
fn output_is_the_same_with_or_without_the_frame_not_needed() {
    let artwork = striped_artwork();
    let light = patterned_frame(201);
    let dark = patterned_frame(17);
    let blurred = filled(100, 100, rgb(90, 100, 60));
    let with = process_image(&artwork, &blurred, Some(&light), Some(&dark)).unwrap().into_raw();
    let without = process_image(&artwork, &blurred, Some(&light), None).unwrap().into_raw();
    assert_eq!(with, without);
    let blurred = filled(100, 100, rgb(190, 200, 160));
    let with = process_image(&artwork, &blurred, Some(&light), Some(&dark)).unwrap().into_raw();
    let without = process_image(&artwork, &blurred, None, Some(&dark)).unwrap().into_raw();
    assert_eq!(with, without);
}

#[test]
fn a_resized_frame_is_the_one_that_was_given() {
    let artwork = filled(100, 100, rgb(10, 20, 30));
    let light = filled(8, 8, rgb(255, 0, 0));
    let dark = filled(8, 8, rgb(0, 0, 255));
    let blurred = filled(100, 100, rgb(128, 128, 128));
    let out = process_image(&artwork, &blurred, Some(&light), Some(&dark)).unwrap();
    assert_eq!(out.get_pixel(100, 100), Some(rgb(255, 0, 0)));
    let blurred = filled(100, 100, rgb(129, 129, 129));
    let out = process_image(&artwork, &blurred, Some(&light), Some(&dark)).unwrap();
    assert_eq!(out.get_pixel(100, 100), Some(rgb(0, 0, 255)));
}

#[test]
fn composite_keeps_samples_beyond_the_last_pixel() {
    let mut data = Vec::new();
    for _ in 0..(16 * 16) {
        data.extend_from_slice(&[9, 9, 9, 255]);
    }
    data.extend_from_slice(&[41, 42, 43]);
    let background = Canvas::from_raw(16, 16, data).unwrap();
    let artwork = filled(8, 8, rgb(50, 60, 70));
    let frame = filled(10, 10, rgb(200, 200, 200));
    let out = composite(background, &artwork, &frame, rgb(1, 2, 3), small_layout()).unwrap();
    let raw = out.into_raw();
    assert_eq!(raw.len(), 4 * 256 + 3);
    assert_eq!(&raw[4 * 256..], &[41, 42, 43]);
}

fn small_patterned_frame() -> Canvas {
    let mut data = Vec::new();
    for y in 0..20u32 {
        for x in 0..20u32 {
            let alpha = if (x / 4 + y / 4) % 2 == 0 { 255 } else { 90 };
            data.extend_from_slice(&[(x * 12) as u8, (y * 12) as u8, ((x * y) % 256) as u8, alpha]);
        }
    }
    Canvas::from_raw(20, 20, data).unwrap()
}

#[test]
fn the_frame_layer_is_the_frame_resized_with_lanczos() {
    let blurred = painted(100, 100, |x, y| Color { r: x as u8, g: y as u8, b: 5, a: 255 });
    let artwork = striped_artwork();
    let frame = small_patterned_frame();
    let ink = rgb(1, 2, 3);
    let out = compose(&blurred, &artwork, &frame, ink).unwrap().into_raw();

    let layout = border_layout(100).unwrap();
    let background = blurred.resized(200, 200, Resampling::Nearest).unwrap();
    let layer = frame.resized(layout.frame_side, layout.frame_side, Resampling::Lanczos3).unwrap();
    let want = composite(background, &artwork, &layer, ink, layout).unwrap().into_raw();
    assert_eq!(out, want);

    let background = blurred.resized(200, 200, Resampling::Nearest).unwrap();
    let coarse = frame.resized(layout.frame_side, layout.frame_side, Resampling::Nearest).unwrap();
    let other = composite(background, &artwork, &coarse, ink, layout).unwrap().into_raw();
    assert_ne!(out, other);
}

#[test]
fn the_background_is_not_resized_with_lanczos() {
    let blurred = painted(100, 100, |x, y| Color { r: (x * 37) as u8, g: (y * 91) as u8, b: 5, a: 255 });
    let artwork = striped_artwork();
    let frame = filled(125, 125, CLEAR);
    let ink = rgb(1, 2, 3);
    let out = compose(&blurred, &artwork, &frame, ink).unwrap().into_raw();
    let layout = border_layout(100).unwrap();
    let smooth = blurred.resized(200, 200, Resampling::Lanczos3).unwrap();
    let other = composite(smooth, &artwork, &frame, ink, layout).unwrap().into_raw();
    assert_ne!(out, other);
}

#[test]
fn compose_refuses_a_frame_too_large_for_lanczos() {
    let blurred = filled(10, 10, rgb(80, 90, 100));
    let artwork = filled(10, 10, rgb(10, 20, 30));
    let wide = Canvas::from_raw(MAX_LANCZOS_SIDE + 1, 1, vec![0u8; 4 * ((1 << 20) + 1)]).unwrap();
    let res = compose(&blurred, &artwork, &wide, rgb(1, 2, 3));
    assert_eq!(res.err(), Some(ImageError::InvalidDimensions));
    let tall = Canvas::from_raw(1, MAX_LANCZOS_SIDE + 1, vec![0u8; 4 * ((1 << 20) + 1)]).unwrap();
    let res = compose(&blurred, &artwork, &tall, rgb(1, 2, 3));
    assert_eq!(res.err(), Some(ImageError::InvalidDimensions));
    let fits = Canvas::from_raw(MAX_LANCZOS_SIDE, 1, vec![0u8; 4 << 20]).unwrap();
    assert!(compose(&blurred, &artwork, &fits, rgb(1, 2, 3)).is_ok());
}
