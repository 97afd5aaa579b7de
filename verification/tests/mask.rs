use ube_core::mask::derive_mask;
use ube_core::style::MaskMode;

const PIXELS: [u8; 16] = [255, 255, 255, 255, 100, 50, 25, 128, 0, 0, 0, 0, 255, 0, 0, 255];

#[test]
fn alpha_mask_takes_each_alpha() {
    let mode = MaskMode { luminance: false, inverted: false };
    assert_eq!(derive_mask(&PIXELS, mode), vec![255, 128, 0, 255]);
}

#[test]
fn inverted_mask_is_upside_down() {
    let mode = MaskMode { luminance: false, inverted: true };
    assert_eq!(derive_mask(&PIXELS, mode), vec![0, 127, 255, 0]);
}

#[test]
fn luminance_mask_weighs_the_channels() {
    let mode = MaskMode { luminance: true, inverted: false };
    // 0.299 * 100 + 0.587 * 50 + 0.114 * 25 = 62.1; 0.299 * 255 = 76.245
    assert_eq!(derive_mask(&PIXELS, mode), vec![255, 62, 0, 76]);
    assert_eq!(derive_mask(&[0, 255, 0, 255, 0, 0, 255, 255], mode), vec![149, 29]);
}

#[test]
fn inverted_luminance_mask() {
    let mode = MaskMode { luminance: true, inverted: true };
    assert_eq!(derive_mask(&PIXELS, mode), vec![0, 193, 255, 179]);
}

#[test]
fn a_mask_has_one_byte_per_complete_pixel() {
    let mode = MaskMode { luminance: false, inverted: false };
    assert_eq!(derive_mask(&[], mode), Vec::<u8>::new());
    assert_eq!(derive_mask(&[1, 2, 3], mode), Vec::<u8>::new());
    assert_eq!(derive_mask(&[1, 2, 3, 4, 5, 6], mode), vec![4]);
    assert_eq!(derive_mask(&vec![9u8; 400], mode).len(), 100);
}
