use raytracer::raster::Image;

#[test]
fn new_image_is_black() {
    let img = Image::new(4, 3).unwrap();
    assert_eq!(img.width(), 4);
    assert_eq!(img.height(), 3);
    assert_eq!(img.as_bytes().len(), 36);
    assert!(img.as_bytes().iter().all(|b| *b == 0));
}

#[test]
fn new_refuses_raster_too_large() {
    assert!(Image::new(usize::MAX, 2).is_none());
    assert!(Image::new(usize::MAX / 3 + 1, 1).is_none());
}

#[test]
fn set_pixel_is_row_major() {
    let mut img = Image::new(3, 2).unwrap();
    img.set_pixel(1, 0, [10, 20, 30]);
    img.set_pixel(0, 1, [40, 50, 60]);
    img.set_pixel(2, 1, [70, 80, 90]);
    assert_eq!(
        img.as_bytes().clone(),
        vec![0, 0, 0, 10, 20, 30, 0, 0, 0, 40, 50, 60, 0, 0, 0, 70, 80, 90]
    );
    assert_eq!(img.pixel(1, 0), [10, 20, 30]);
    assert_eq!(img.pixel(2, 1), [70, 80, 90]);
    assert_eq!(img.pixel(0, 0), [0, 0, 0]);
}

#[test]
fn set_pixel_overwrites() {
    let mut img = Image::new(1, 1).unwrap();
    img.set_pixel(0, 0, [1, 2, 3]);
    img.set_pixel(0, 0, [255, 0, 7]);
    assert_eq!(img.pixel(0, 0), [255, 0, 7]);
}

#[test]
fn unwritten_pixels_stay_black() {
    // a disc of written pixels in the middle of the frame
    let mut img = Image::new(5, 5).unwrap();
    for y in 1..4usize {
        for x in 1..4usize {
            img.set_pixel(x, y, [255, 0, 0]);
        }
    }
    for y in 0..5usize {
        for x in 0..5usize {
            let inside = (1..4).contains(&x) && (1..4).contains(&y);
            let want = if inside { [255, 0, 0] } else { [0, 0, 0] };
            assert_eq!(img.pixel(x, y), want);
        }
    }
}
