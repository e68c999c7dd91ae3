use facial_recognition::processors::{
    count_skin_pixels, detect_faces, load_image, process_frame, process_image, Detection,
    ProcessImageError, RgbFrame,
};

fn frame(width: u32, height: u32, colour: impl Fn(u32, u32) -> [u8; 3]) -> RgbFrame {
    let mut pixels = Vec::new();
    for y in 0..height {
        for x in 0..width {
            pixels.extend_from_slice(&colour(x, y));
        }
    }
    RgbFrame { width, height, pixels }
}

#[test]
fn test_process_image_with_invalid_path() {
    let result = process_image("invalid_path.png");
    assert!(result.is_err());
}

#[test]
fn test_process_nonexistent_image() {
    let image_path = "tests/nonexistent.jpg";
    let result = process_image(image_path);
    assert!(result.is_err());
}

#[test]
fn test_load_image_failure() {
    let result = load_image("non_existent_image.png");
    assert!(result.is_err());
    assert!(matches!(result, Err(ProcessImageError::Unreadable)));
}

#[test]
fn test_process_image_with_valid_path() {
    let path = "/tmp/facial_recognition_valid_path_probe.png";
    let mut img_buffer = image::RgbImage::new(100, 100);
    for pixel in img_buffer.pixels_mut() {
        *pixel = image::Rgb([0, 0, 255]);
    }
    img_buffer.save(path).expect("Failed to save test image");
    let result = process_image(path);
    assert!(result.is_ok());
    assert!(result.unwrap().is_empty());
}

#[test]
fn loaded_image_holds_its_pixels() {
    let path = "/tmp/facial_recognition_load_probe.png";
    let mut img = image::RgbImage::new(3, 2);
    img.put_pixel(2, 1, image::Rgb([200, 150, 130]));
    img.save(path).expect("Failed to save test image");
    let f = load_image(path).unwrap();
    assert_eq!((f.width, f.height), (3, 2));
    assert_eq!(f.pixels.len(), 18);
    assert_eq!(&f.pixels[15..18], &[200, 150, 130]);
    assert_eq!(count_skin_pixels(&f, 0, 0, 3, 2), 1);
}

#[test]
fn test_detect_faces_empty() {
    let img = frame(100, 100, |_, _| [0, 0, 255]);
    let detections = detect_faces(&img);
    assert!(detections.len() <= 1);
    assert!(detections.is_empty());
}

#[test]
fn test_detect_faces_with_skin_tones() {
    let img = frame(200, 200, |x, y| {
        if (50..150).contains(&x) && (50..150).contains(&y) {
            [180, 140, 120]
        } else {
            [0, 0, 255]
        }
    });
    let detections = detect_faces(&img);
    assert!(!detections.is_empty());
}

#[test]
fn test_detect_faces() {
    // step 10, largest face 100: the region at (50, 50) is all skin
    let img = frame(200, 200, |x, y| {
        if (50..150).contains(&x) && (50..150).contains(&y) {
            [180, 140, 120]
        } else {
            [0, 0, 255]
        }
    });
    let detections = detect_faces(&img);
    let at = detections.iter().find(|d| d.bounding_box == (50, 50, 100, 100)).unwrap();
    assert_eq!((at.skin_pixels, at.total_pixels), (10000, 10000));
    // every detection is more than 30% skin and at least 10 pixels on a side
    assert!(detections.iter().all(|d| 10 * d.skin_pixels > 3 * d.total_pixels));
    assert!(detections.iter().all(|d| d.bounding_box.2 >= 10 && d.bounding_box.3 >= 10));
    // row-major order
    let keys: Vec<(u32, u32)> =
        detections.iter().map(|d| (d.bounding_box.1, d.bounding_box.0)).collect();
    let mut sorted = keys.clone();
    sorted.sort();
    assert_eq!(keys, sorted);
}

#[test]
fn test_count_skin_pixels() {
    let img = frame(10, 10, |x, y| if (y * 10 + x) % 2 == 0 { [200, 150, 130] } else { [0, 0, 255] });
    let count = count_skin_pixels(&img, 0, 0, 10, 10);
    assert_eq!(count, 50);
}

#[test]
fn test_count_skin_pixels_no_skin() {
    let img = frame(10, 10, |_, _| [0, 0, 255]);
    let count = count_skin_pixels(&img, 0, 0, 10, 10);
    assert_eq!(count, 0);
}

#[test]
fn skin_count_ignores_pixels_outside_the_image() {
    let img = frame(4, 4, |_, _| [200, 150, 130]);
    assert_eq!(count_skin_pixels(&img, 2, 2, 10, 10), 4);
    assert_eq!(count_skin_pixels(&img, 5, 0, 3, 3), 0);
}

#[test]
fn small_frame_is_refused() {
    let img = frame(19, 19, |_, _| [200, 150, 130]);
    assert!(matches!(process_frame(&img), Err(ProcessImageError::TooSmall)));
    let ok = frame(20, 5, |_, _| [0, 0, 255]);
    assert!(matches!(process_frame(&ok), Ok(d) if d.is_empty()));
}

#[test]
fn test_detection_struct() {
    let detection = Detection { bounding_box: (10, 10, 100, 100), skin_pixels: 9500, total_pixels: 10000 };
    assert_eq!(detection.skin_pixels as f64 / detection.total_pixels as f64, 0.95);
    assert_eq!(detection.bounding_box, (10, 10, 100, 100));
}
