use snui::content::Pixel;
use snui::decode::{decoded_message, pixels_of};
use snui::fetch::Message;
use snui::Error;

fn png(width: u32, height: u32, rgba: Vec<u8>) -> Vec<u8> {
    let image = image::RgbaImage::from_raw(width, height, rgba).unwrap();
    let mut bytes: Vec<u8> = Vec::new();
    image::DynamicImage::ImageRgba8(image)
        .write_to(&mut bytes, image::ImageOutputFormat::Png)
        .unwrap();
    bytes
}

fn load(bytes: &[u8]) -> Option<(Vec<u8>, usize, usize)> {
    let image = image::load_from_memory(bytes).ok()?.to_rgba8();
    let (width, height) = (image.width() as usize, image.height() as usize);
    Some((image.into_raw(), width, height))
}

#[test]
fn opaque_pixels_keep_their_colours() {
    let raw = vec![
        10, 20, 30, 255, 40, 50, 60, 255, 70, 80, 90, 255, 1, 2, 3, 255, 4, 5, 6, 255, 7, 8, 9,
        255,
    ];
    let message: Message<(), ()> = decoded_message(load(&png(3, 2, raw)), 5);
    match message {
        Message::ImageDecoded(pixels, size, id) => {
            assert_eq!(id, 5);
            assert_eq!(size, (3, 2));
            assert_eq!(pixels.len(), 6);
            assert_eq!(pixels[0], Pixel { r: 10, g: 20, b: 30, a: 255 });
            assert_eq!(pixels[2], Pixel { r: 70, g: 80, b: 90, a: 255 });
            assert_eq!(pixels[3], Pixel { r: 1, g: 2, b: 3, a: 255 });
            assert_eq!(pixels[5], Pixel { r: 7, g: 8, b: 9, a: 255 });
        }
        _ => panic!("not decoded"),
    }
}

#[test]
fn transparent_pixels_lose_their_colours() {
    let raw = vec![10, 20, 30, 0, 200, 100, 50, 128];
    let message: Message<(), ()> = decoded_message(Some((raw, 2, 1)), 0);
    match message {
        Message::ImageDecoded(pixels, size, _) => {
            assert_eq!(size, (2, 1));
            assert_eq!(pixels[0], Pixel { r: 0, g: 0, b: 0, a: 0 });
            assert_eq!(pixels[1].a, 128);
            assert!(pixels[1].r < 200 && pixels[1].g < 100 && pixels[1].b < 50);
        }
        _ => panic!("not decoded"),
    }
}

#[test]
fn bytes_that_are_no_image_fail() {
    let message: Message<(), ()> = decoded_message(load(&[1, 2, 3, 4, 5]), 8);
    assert!(matches!(message, Message::Failed(Error::DecodeError(8))));
    let message: Message<(), ()> = decoded_message(None, 9);
    assert!(matches!(message, Message::Failed(Error::DecodeError(9))));
}

#[test]
fn values_that_do_not_fill_the_image_fail() {
    let cases: Vec<(Vec<u8>, usize, usize)> = vec![
        (vec![1, 2, 3], 1, 1),
        (vec![1, 2, 3, 4, 5], 1, 1),
        (vec![0; 8], 1, 1),
        (vec![0; 8], 3, 1),
        (vec![0; 8], 0, 2),
        (vec![0; 4], 0, 0),
        (vec![], 1, 1),
        (vec![0; 8], usize::MAX, 2),
        (vec![0; 8], 2, usize::MAX),
    ];
    for (raw, width, height) in cases {
        let message: Message<(), ()> = decoded_message(Some((raw, width, height)), 3);
        assert!(matches!(message, Message::Failed(Error::DecodeError(3))));
    }
}

#[test]
fn image_without_pixels_has_none() {
    for (width, height) in [(0usize, 0usize), (0, 7), (7, 0)] {
        let message: Message<(), ()> = decoded_message(Some((vec![], width, height)), 1);
        match message {
            Message::ImageDecoded(pixels, size, 1) => {
                assert!(pixels.is_empty());
                assert_eq!(size, (width, height));
            }
            _ => panic!("not decoded"),
        }
    }
}

#[test]
fn image_of_two_rows_keeps_its_rows() {
    let raw = vec![1, 1, 1, 255, 2, 2, 2, 255, 3, 3, 3, 255, 4, 4, 4, 255, 5, 5, 5, 255, 6, 6, 6, 255];
    let message: Message<(), ()> = decoded_message(Some((raw, 2, 3)), 0);
    match message {
        Message::ImageDecoded(pixels, size, _) => {
            assert_eq!(size, (2, 3));
            let reds: Vec<u8> = pixels.iter().map(|p| p.r).collect();
            assert_eq!(reds, vec![1, 2, 3, 4, 5, 6]);
        }
        _ => panic!("not decoded"),
    }
}

#[test]
fn pixels_of_takes_four_values_for_each_pixel() {
    let pixels = pixels_of(&vec![1, 2, 3, 255, 4, 5, 6, 0]);
    assert_eq!(
        pixels,
        vec![Pixel { r: 1, g: 2, b: 3, a: 255 }, Pixel { r: 0, g: 0, b: 0, a: 0 }]
    );
    assert!(pixels_of(&vec![]).is_empty());
}
