use gazou::{extent, try_extent, Image, Rgba};

fn quad() -> Image {
    let mut img = Image::from_pixel(2, 2, Rgba::new(10, 20, 30, 255));
    img.put_pixel(1, 0, Rgba::new(1, 1, 1, 255));
    img.put_pixel(0, 1, Rgba::new(2, 2, 2, 255));
    img.put_pixel(1, 1, Rgba::new(3, 3, 3, 255));
    img
}

#[test]
fn extent_to_same_size_gives_the_image() {
    let out = extent(&quad(), 2, 2, 0, 0);
    assert_eq!(out, quad());
}

#[test]
fn extent_of_translucent_image_is_not_the_image() {
    let img = Image::from_pixel(1, 1, Rgba::new(200, 100, 50, 128));
    let out = extent(&img, 1, 1, 0, 0);
    // The copy weighs the colour by the pixel's alpha; the alpha is that of
    // the pixel over itself.
    assert_eq!(out.get_pixel(0, 0), Rgba::new(100, 50, 25, 191));
}

#[test]
fn extent_one_pixel_to_three_by_three() {
    let fill = Rgba::new(10, 20, 30, 255);
    let img = Image::from_pixel(1, 1, fill);
    let out = extent(&img, 3, 3, 1, 1);
    assert_eq!(out.dimensions(), (3, 3));
    // The image's origin lands at (-1, -1) of the canvas. The pixels whose
    // coordinate relative to it is a coordinate of the canvas have no top
    // pixel and get transparent black copied onto them; the last row and the
    // last column are passed over and keep the fill colour.
    for y in 0..3 {
        for x in 0..3 {
            let expected = if x < 2 && y < 2 { Rgba::new(0, 0, 0, 255) } else { fill };
            assert_eq!(out.get_pixel(x, y), expected);
        }
    }
}

#[test]
fn extent_with_positive_offset_moves_the_origin_into_the_image() {
    let out = extent(&quad(), 2, 2, 1, 1);
    assert_eq!(out.get_pixel(0, 0), Rgba::new(3, 3, 3, 255));
    assert_eq!(out.get_pixel(1, 0), Rgba::new(10, 20, 30, 255));
    assert_eq!(out.get_pixel(0, 1), Rgba::new(10, 20, 30, 255));
    assert_eq!(out.get_pixel(1, 1), Rgba::new(10, 20, 30, 255));
}

#[test]
fn extent_with_negative_offset_moves_the_image_into_the_canvas() {
    let out = extent(&quad(), 3, 3, -1, -1);
    let fill = Rgba::new(10, 20, 30, 255);
    assert_eq!(out.get_pixel(0, 0), fill);
    assert_eq!(out.get_pixel(1, 0), fill);
    assert_eq!(out.get_pixel(2, 0), fill);
    assert_eq!(out.get_pixel(0, 1), fill);
    assert_eq!(out.get_pixel(0, 2), fill);
    assert_eq!(out.get_pixel(1, 1), Rgba::new(10, 20, 30, 255));
    assert_eq!(out.get_pixel(2, 1), Rgba::new(1, 1, 1, 255));
    assert_eq!(out.get_pixel(1, 2), Rgba::new(2, 2, 2, 255));
    assert_eq!(out.get_pixel(2, 2), Rgba::new(3, 3, 3, 255));
}

#[test]
fn extent_to_larger_canvas_blackens_beside_the_image() {
    let out = extent(&quad(), 3, 2, 0, 0);
    assert_eq!(out.get_pixel(0, 0), Rgba::new(10, 20, 30, 255));
    assert_eq!(out.get_pixel(1, 0), Rgba::new(1, 1, 1, 255));
    assert_eq!(out.get_pixel(2, 0), Rgba::new(0, 0, 0, 255));
    assert_eq!(out.get_pixel(0, 1), Rgba::new(2, 2, 2, 255));
    assert_eq!(out.get_pixel(1, 1), Rgba::new(3, 3, 3, 255));
    assert_eq!(out.get_pixel(2, 1), Rgba::new(0, 0, 0, 255));
}

#[test]
fn extent_to_smaller_canvas_crops() {
    let out = extent(&quad(), 1, 1, 0, 0);
    assert_eq!(out, Image::from_pixel(1, 1, Rgba::new(10, 20, 30, 255)));
}

#[test]
fn extent_far_away_is_the_fill_colour() {
    let fill = Image::from_pixel(3, 2, Rgba::new(10, 20, 30, 255));
    assert_eq!(extent(&quad(), 3, 2, i64::MIN, 0), fill);
    assert_eq!(extent(&quad(), 3, 2, 0, i64::MIN), fill);
    assert_eq!(extent(&quad(), 3, 2, i64::MAX, 0), fill);
    assert_eq!(extent(&quad(), 3, 2, 0, i64::MAX), fill);
    assert_eq!(extent(&quad(), 3, 2, -3, 0), fill);
    assert_eq!(extent(&quad(), 3, 2, 3, 0), fill);
}

#[test]
fn extent_to_empty_canvas() {
    let out = extent(&quad(), 0, 0, 0, 0);
    assert_eq!(out.dimensions(), (0, 0));
}

#[test]
fn try_extent_agrees_with_extent() {
    let out = try_extent(&quad(), 3, 3, -1, -1);
    assert_eq!(out, Some(extent(&quad(), 3, 3, -1, -1)));
}

#[test]
fn try_extent_refuses_an_image_without_pixels() {
    let empty = Image::from_pixel(0, 4, Rgba::new(1, 2, 3, 4));
    assert_eq!(try_extent(&empty, 2, 2, 0, 0), None);
    let empty = Image::from_pixel(4, 0, Rgba::new(1, 2, 3, 4));
    assert_eq!(try_extent(&empty, 2, 2, 0, 0), None);
}

#[test]
fn try_extent_refuses_a_canvas_too_large_to_allocate() {
    assert_eq!(try_extent(&quad(), u32::MAX, u32::MAX, 0, 0), None);
}
