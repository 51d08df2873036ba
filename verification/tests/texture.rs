use mesh_loader::error::LoadError;
use mesh_loader::texture::placeholder;
use mesh_loader::texture::Image;
use mesh_loader::texture::Layout;
use mesh_loader::texture::Sampling;

#[test]
fn rows_are_turned_upside_down() {
    // two columns, three rows
    let pixels: Vec<u8> = (0u8..24).collect();
    let upload = Image { pixels, width: 2, height: 3 }.into_texture().unwrap();
    let expected: Vec<u8> = vec![
        16, 17, 18, 19, 20, 21, 22, 23, 8, 9, 10, 11, 12, 13, 14, 15, 0, 1, 2, 3, 4, 5, 6, 7,
    ];
    assert_eq!(upload.pixels, expected);
    assert_eq!(upload.width, 2);
    assert_eq!(upload.height, 3);
    assert_eq!(upload.layout, Layout::Rgba);
    assert_eq!(upload.sampling, Sampling::Trilinear);
}

#[test]
fn pixels_that_do_not_fill_the_image_are_refused() {
    let image = Image { pixels: vec![1, 2, 3], width: 1, height: 1 };
    assert_eq!(image.into_texture().err(), Some(LoadError::ImageLayout));
}

#[test]
fn empty_image_is_kept() {
    let upload = Image { pixels: vec![], width: 0, height: 5 }.into_texture().unwrap();
    assert!(upload.pixels.is_empty());
}

#[test]
fn placeholder_is_one_white_pixel() {
    let p = placeholder();
    assert_eq!(p.pixels, vec![255u8, 255, 255]);
    assert_eq!((p.width, p.height), (1, 1));
    assert_eq!(p.layout, Layout::Rgb);
    assert_eq!(p.sampling, Sampling::Untouched);
}
