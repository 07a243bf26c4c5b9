use cantara::conversions::Rgb8;
use cantara::conversions::Rgba8;
use cantara::conversions::ToHexString;
use cantara::conversions::ToRgb8;
use cantara::conversions::i32_dec_string;
use cantara::conversions::u32_dec_string;

#[test]
fn test_rgb8_to_hex() {
    let rgb = Rgb8::new(255, 0, 128);
    assert_eq!(rgb.to_hex(), "#FF0080");

    let rgb = Rgb8::new(0, 0, 0);
    assert_eq!(rgb.to_hex(), "#000000");

    let rgb = Rgb8::new(255, 255, 255);
    assert_eq!(rgb.to_hex(), "#FFFFFF");
}

#[test]
fn test_rgba8_to_hex() {
    let rgba = Rgba8::new(255, 0, 128, 255);
    assert_eq!(rgba.to_hex(), "#FF0080");

    let rgba = Rgba8::new(0, 0, 0, 128);
    assert_eq!(rgba.to_hex(), "#000000");
}

#[test]
fn test_string_to_rgb8_valid() {
    let hex = "#FF0080".to_string();
    let rgb = hex.to_rgb8().unwrap();
    assert_eq!(rgb.r, 255);
    assert_eq!(rgb.g, 0);
    assert_eq!(rgb.b, 128);

    // Test without # prefix
    let hex = "FF0080".to_string();
    let rgb = hex.to_rgb8().unwrap();
    assert_eq!(rgb.r, 255);
    assert_eq!(rgb.g, 0);
    assert_eq!(rgb.b, 128);

    // Test lowercase
    let hex = "#ff0080".to_string();
    let rgb = hex.to_rgb8().unwrap();
    assert_eq!(rgb.r, 255);
    assert_eq!(rgb.g, 0);
    assert_eq!(rgb.b, 128);
}

#[test]
fn test_string_to_rgb8_invalid() {
    // Invalid length
    let hex = "#FF00".to_string();
    assert!(hex.to_rgb8().is_none());

    // Invalid characters
    let hex = "#FF00ZZ".to_string();
    assert!(hex.to_rgb8().is_none());

    // Empty string
    let hex = "".to_string();
    assert!(hex.to_rgb8().is_none());
}

#[test]
fn test_roundtrip_conversion() {
    // RGB8 -> hex -> RGB8
    let original = Rgb8::new(255, 0, 128);
    let hex = original.to_hex();
    let converted = hex.to_rgb8().unwrap();
    assert_eq!(original, converted);

    // String -> RGB8 -> String
    let original_hex = "#00FF00".to_string();
    let rgb = original_hex.to_rgb8().unwrap();
    let converted_hex = rgb.to_hex();
    assert_eq!(original_hex.to_uppercase(), converted_hex);
}

#[test]
fn test_decimal_rendering() {
    assert_eq!(u32_dec_string(0), "0");
    assert_eq!(u32_dec_string(7), "7");
    assert_eq!(u32_dec_string(255), "255");
    assert_eq!(u32_dec_string(1000), "1000");
    assert_eq!(i32_dec_string(-13), "-13");
    assert_eq!(i32_dec_string(42), "42");
    assert_eq!(i32_dec_string(0), "0");
}
