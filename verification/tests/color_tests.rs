use chronomap::color::{hex_to_rgb, lane_tint, Rgb};

#[test]
fn test_hex_to_rgb() {
    let c = hex_to_rgb("#ef4444");
    let (r, g, b) = (c.r as f32 / 255.0, c.g as f32 / 255.0, c.b as f32 / 255.0);
    assert!((r - 0.937).abs() < 0.01);
    assert!((g - 0.267).abs() < 0.01);
    assert!((b - 0.267).abs() < 0.01);

    let c = hex_to_rgb("#000000");
    let (r, g, b) = (c.r as f32 / 255.0, c.g as f32 / 255.0, c.b as f32 / 255.0);
    assert!(r.abs() < 0.01);
    assert!(g.abs() < 0.01);
    assert!(b.abs() < 0.01);

    let c = hex_to_rgb("#ffffff");
    let (r, g, b) = (c.r as f32 / 255.0, c.g as f32 / 255.0, c.b as f32 / 255.0);
    assert!((r - 1.0).abs() < 0.01);
    assert!((g - 1.0).abs() < 0.01);
    assert!((b - 1.0).abs() < 0.01);
}

#[test]
fn test_hex_to_rgb_exact_endpoints() {
    assert_eq!(hex_to_rgb("#000000"), Rgb { r: 0, g: 0, b: 0 });
    assert_eq!(hex_to_rgb("#ffffff"), Rgb { r: 255, g: 255, b: 255 });
    assert_eq!(hex_to_rgb("#FFFFFF"), Rgb { r: 255, g: 255, b: 255 });
}

#[test]
fn test_malformed_color_maps_to_gray() {
    let gray = Rgb { r: 102, g: 102, b: 102 };
    assert_eq!(hex_to_rgb(""), gray);
    assert_eq!(hex_to_rgb("red"), gray);
    assert_eq!(hex_to_rgb("#fff"), gray);
    assert_eq!(hex_to_rgb("#ff00zz"), gray);
    assert_eq!(hex_to_rgb("#ff00000"), gray);
    assert_eq!(hex_to_rgb("ff0000"), gray);
    // the fallback sits at 0.4 of full scale
    assert!((102.0_f32 / 255.0 - 0.4).abs() < 0.01);
}

#[test]
fn test_lane_tint_blends_toward_white() {
    // black keeps only 15% of its distance to white
    assert_eq!(lane_tint(Rgb { r: 0, g: 0, b: 0 }), Rgb { r: 217, g: 217, b: 217 });
    // white stays white
    assert_eq!(lane_tint(Rgb { r: 255, g: 255, b: 255 }), Rgb { r: 255, g: 255, b: 255 });
    let t = lane_tint(hex_to_rgb("#ef4444"));
    assert!(t.r >= 239 && t.g >= 68 && t.b >= 68);
}
