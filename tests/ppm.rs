use raytracer::ppm::{encode_ppm, ppm_header, SizeMismatch};
use raytracer::raster::Image;

#[test]
fn header_for_default_size() {
    assert_eq!(ppm_header(800, 600), b"P6 800 600 255\n".to_vec());
}

#[test]
fn header_for_small_sizes() {
    assert_eq!(ppm_header(0, 7), b"P6 0 7 255\n".to_vec());
    assert_eq!(ppm_header(10, 1), b"P6 10 1 255\n".to_vec());
    assert_eq!(ppm_header(1024, 99), b"P6 1024 99 255\n".to_vec());
}

#[test]
fn default_size_buffer_and_file_length() {
    let img = Image::new(800, 600).unwrap();
    assert_eq!(img.as_bytes().len(), 1_440_000);
    let file = encode_ppm(img.width(), img.height(), img.as_bytes()).unwrap();
    let header = b"P6 800 600 255\n";
    assert_eq!(&file[..header.len()], &header[..]);
    assert_eq!(file.len(), header.len() + 1_440_000);
}

#[test]
fn encode_keeps_pixels_in_order() {
    let pixels: Vec<u8> = vec![1, 2, 3, 4, 5, 6];
    let file = encode_ppm(2, 1, &pixels).unwrap();
    let mut expected = b"P6 2 1 255\n".to_vec();
    expected.extend_from_slice(&pixels);
    assert_eq!(file, expected);
}

#[test]
fn encode_refuses_wrong_buffer_size() {
    let pixels: Vec<u8> = vec![0; 5];
    assert_eq!(
        encode_ppm(2, 1, &pixels),
        Err(SizeMismatch { width: 2, height: 1, actual: 5 })
    );
    let long: Vec<u8> = vec![0; 9];
    assert_eq!(
        encode_ppm(1, 2, &long),
        Err(SizeMismatch { width: 1, height: 2, actual: 9 })
    );
}

#[test]
fn encode_refuses_size_that_overflows() {
    let pixels: Vec<u8> = vec![0; 3];
    assert_eq!(
        encode_ppm(usize::MAX, 2, &pixels),
        Err(SizeMismatch { width: usize::MAX, height: 2, actual: 3 })
    );
}

#[test]
fn encode_empty_image() {
    let pixels: Vec<u8> = Vec::new();
    assert_eq!(encode_ppm(0, 0, &pixels), Ok(b"P6 0 0 255\n".to_vec()));
}
