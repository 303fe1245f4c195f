use asciidesk::desktop::{luminance, DefaultAsciiEncoder};
use asciidesk::protocol::{AsciiEncoder, RawFrame, RenderProfile};

fn solid_frame(width: u32, height: u32, rgba: [u8; 4]) -> RawFrame {
    let mut pixels = vec![0u8; (width * height * 4) as usize];
    for i in 0..(width * height) as usize {
        pixels[i * 4] = rgba[0];
        pixels[i * 4 + 1] = rgba[1];
        pixels[i * 4 + 2] = rgba[2];
        pixels[i * 4 + 3] = rgba[3];
    }
    RawFrame { width, height, data: pixels }
}

fn rows_of(cell: &[u8]) -> Vec<u8> {
    let mut out = Vec::new();
    for _ in 0..24 {
        for _ in 0..80 {
            out.extend_from_slice(cell);
        }
        out.push(b'\n');
    }
    out.extend_from_slice(b"\x1b[0m");
    out
}

#[test]
fn test_ascii_encoder_monochrome() {
    let mut encoder = DefaultAsciiEncoder::new();
    // Create 80x24 red pixels
    let mut pixels = vec![0u8; 80 * 24 * 4];
    for i in 0..80 * 24 {
        pixels[i * 4] = 255; // R
        pixels[i * 4 + 1] = 0; // G
        pixels[i * 4 + 2] = 0; // B
        pixels[i * 4 + 3] = 255; // A
    }

    let raw = RawFrame { width: 80, height: 24, data: pixels };

    let encoded = encoder.encode(&raw, RenderProfile::MonochromeAscii).unwrap();
    assert_eq!(encoded.frame_id, 1);
    assert_eq!(encoded.width_cells, 80);
    assert_eq!(encoded.height_cells, 24);
    assert!(!encoded.payload.is_empty());
}

#[test]
fn test_ascii_encoder_truecolor() {
    let mut encoder = DefaultAsciiEncoder::new();
    // Create 160x48 blue pixels
    let mut pixels = vec![0u8; 160 * 48 * 4];
    for i in 0..160 * 48 {
        pixels[i * 4] = 0;
        pixels[i * 4 + 1] = 0;
        pixels[i * 4 + 2] = 255;
        pixels[i * 4 + 3] = 255;
    }

    let raw = RawFrame { width: 160, height: 48, data: pixels };

    let encoded = encoder.encode(&raw, RenderProfile::Truecolor).unwrap();
    assert_eq!(encoded.frame_id, 1);
    assert_eq!(encoded.width_cells, 80);
    assert_eq!(encoded.height_cells, 24);
    assert!(!encoded.payload.is_empty());
    // Verify truecolor ANSI escape codes exist in payload
    let payload_str = String::from_utf8(encoded.payload).unwrap();
    assert!(payload_str.contains("\x1b[38;2;"));
}

#[test]
fn monochrome_red_frame_is_dots() {
    let mut encoder = DefaultAsciiEncoder::new();
    let raw = solid_frame(80, 24, [255, 0, 0, 255]);
    let encoded = encoder.encode_at(&raw, RenderProfile::MonochromeAscii, 1234);
    // 0.2126 * 255 = 54.2 -> 54; 54 * 9 / 255 = 1 -> '.'
    assert_eq!(encoded.payload, rows_of(b"."));
    assert_eq!(encoded.timestamp_ms, 1234);
    assert_eq!(encoded.profile, RenderProfile::MonochromeAscii);
}

#[test]
fn monochrome_white_frame_is_at_signs() {
    let mut encoder = DefaultAsciiEncoder::new();
    let raw = solid_frame(160, 48, [255, 255, 255, 255]);
    let encoded = encoder.encode_at(&raw, RenderProfile::MonochromeAscii, 0);
    assert_eq!(encoded.payload, rows_of(b"@"));
}

#[test]
fn truecolor_blue_frame_exact() {
    let mut encoder = DefaultAsciiEncoder::new();
    let raw = solid_frame(160, 48, [0, 0, 255, 255]);
    let encoded = encoder.encode_at(&raw, RenderProfile::Truecolor, 0);
    assert_eq!(encoded.payload, rows_of("\x1b[38;2;0;0;255m█".as_bytes()));
}

#[test]
fn half_block_and_braille_render_as_truecolor() {
    let raw = solid_frame(80, 24, [1, 2, 3, 255]);
    let mut encoder = DefaultAsciiEncoder::new();
    let a = encoder.encode_at(&raw, RenderProfile::UnicodeHalfBlock, 0);
    let b = encoder.encode_at(&raw, RenderProfile::Braille, 0);
    assert_eq!(a.payload, rows_of("\x1b[38;2;1;2;3m█".as_bytes()));
    assert_eq!(b.payload, a.payload);
}

#[test]
fn ansi16_bright_red() {
    let mut encoder = DefaultAsciiEncoder::new();
    let raw = solid_frame(80, 24, [255, 0, 0, 255]);
    let encoded = encoder.encode_at(&raw, RenderProfile::Ansi16, 0);
    // 30 + 1 (red) + 60 (bright) = 91
    assert_eq!(encoded.payload, rows_of("\x1b[91m█".as_bytes()));
}

#[test]
fn ansi16_dim_green() {
    let mut encoder = DefaultAsciiEncoder::new();
    let raw = solid_frame(80, 24, [0, 150, 0, 255]);
    let encoded = encoder.encode_at(&raw, RenderProfile::Ansi16, 0);
    assert_eq!(encoded.payload, rows_of("\x1b[32m█".as_bytes()));
}

#[test]
fn ansi256_colour_cube() {
    let mut encoder = DefaultAsciiEncoder::new();
    let raw = solid_frame(80, 24, [255, 0, 0, 255]);
    let encoded = encoder.encode_at(&raw, RenderProfile::Ansi256, 0);
    // 16 + 36 * 5 = 196
    assert_eq!(encoded.payload, rows_of("\x1b[38;5;196m█".as_bytes()));
    let raw = solid_frame(80, 24, [102, 204, 51, 255]);
    let encoded = encoder.encode_at(&raw, RenderProfile::Ansi256, 0);
    // 102*5/255 = 2, 204*5/255 = 4, 51*5/255 = 1 -> 16 + 72 + 24 + 1 = 113
    assert_eq!(encoded.payload, rows_of("\x1b[38;5;113m█".as_bytes()));
}

#[test]
fn cells_average_their_pixels() {
    // 160 by 24: each cell covers two pixels of one row, one black, one 200-grey.
    let mut pixels = Vec::new();
    for _y in 0..24 {
        for x in 0..160 {
            let v = if x % 2 == 0 { 0u8 } else { 200u8 };
            pixels.extend_from_slice(&[v, v, v, 255]);
        }
    }
    let raw = RawFrame { width: 160, height: 24, data: pixels };
    let mut encoder = DefaultAsciiEncoder::new();
    let encoded = encoder.encode_at(&raw, RenderProfile::Truecolor, 0);
    assert_eq!(encoded.payload, rows_of("\x1b[38;2;100;100;100m█".as_bytes()));
}

#[test]
fn missing_pixels_are_black() {
    // No pixel data at all: every cell is black.
    let raw = RawFrame { width: 80, height: 24, data: Vec::new() };
    let mut encoder = DefaultAsciiEncoder::new();
    let encoded = encoder.encode_at(&raw, RenderProfile::MonochromeAscii, 0);
    assert_eq!(encoded.payload, rows_of(b" "));
}

#[test]
fn empty_frame_renders_black_cells() {
    let raw = RawFrame { width: 0, height: 0, data: Vec::new() };
    let mut encoder = DefaultAsciiEncoder::new();
    let encoded = encoder.encode(&raw, RenderProfile::Truecolor).unwrap();
    assert_eq!(encoded.payload, rows_of("\x1b[38;2;0;0;0m█".as_bytes()));
}

#[test]
fn frame_numbers_count_up() {
    let raw = solid_frame(8, 8, [9, 9, 9, 255]);
    let mut encoder = DefaultAsciiEncoder::new();
    assert_eq!(encoder.encode(&raw, RenderProfile::Ansi16).unwrap().frame_id, 1);
    assert_eq!(encoder.encode(&raw, RenderProfile::Ansi16).unwrap().frame_id, 2);
    assert_eq!(encoder.encode_at(&raw, RenderProfile::Ansi16, 7).frame_id, 3);
}

#[test]
fn short_data_averages_only_present_pixels() {
    // 160 by 48 declared, but only row 0 is present (white).
    let mut pixels = Vec::new();
    for _ in 0..160 {
        pixels.extend_from_slice(&[255, 255, 255, 255]);
    }
    let raw = RawFrame { width: 160, height: 48, data: pixels };
    let mut encoder = DefaultAsciiEncoder::new();
    let encoded = encoder.encode(&raw, RenderProfile::MonochromeAscii).unwrap();
    let mut expected = Vec::new();
    expected.extend_from_slice(&[b'@'; 80]);
    expected.push(b'\n');
    for _ in 1..24 {
        expected.extend_from_slice(&[b' '; 80]);
        expected.push(b'\n');
    }
    expected.extend_from_slice(b"\x1b[0m");
    assert_eq!(encoded.payload, expected);
    assert_eq!(encoded.frame_id, 1);
}

#[test]
fn luminance_matches_single_precision() {
    let blues = [0u8, 1, 2, 63, 64, 127, 128, 200, 254, 255];
    for r in 0..=255u8 {
        for g in 0..=255u8 {
            for &b in blues.iter() {
                let expected = (0.2126 * r as f32 + 0.7152 * g as f32 + 0.0722 * b as f32) as u8;
                assert_eq!(luminance(r, g, b), expected, "r={} g={} b={}", r, g, b);
            }
        }
    }
}

#[test]
fn luminance_exact_values() {
    assert_eq!(luminance(0, 0, 0), 0);
    assert_eq!(luminance(255, 255, 255), 255);
    assert_eq!(luminance(255, 0, 0), 54);
    assert_eq!(luminance(0, 255, 0), 182);
    assert_eq!(luminance(0, 0, 255), 18);
}

#[test]
fn scaling_up_keeps_the_payload() {
    let (w, h, k) = (160u32, 48u32, 3u32);
    let colour = |x: u32, y: u32| [(x * 7 % 256) as u8, (y * 11 % 256) as u8, ((x + y) % 256) as u8, 255];
    let mut small = Vec::new();
    for y in 0..h {
        for x in 0..w {
            small.extend_from_slice(&colour(x, y));
        }
    }
    let mut large = Vec::new();
    for y in 0..h * k {
        for x in 0..w * k {
            large.extend_from_slice(&colour(x / k, y / k));
        }
    }
    let raw = RawFrame { width: w, height: h, data: small };
    let up = RawFrame { width: w * k, height: h * k, data: large };
    for profile in [
        RenderProfile::MonochromeAscii,
        RenderProfile::Ansi16,
        RenderProfile::Ansi256,
        RenderProfile::Truecolor,
    ] {
        let a = DefaultAsciiEncoder::new().encode(&raw, profile).unwrap().payload;
        let b = DefaultAsciiEncoder::new().encode(&up, profile).unwrap().payload;
        assert_eq!(a, b);
    }
}

#[test]
fn payload_layout_is_rows_and_reset() {
    let raw = solid_frame(37, 19, [200, 30, 90, 255]);
    for profile in [
        RenderProfile::MonochromeAscii,
        RenderProfile::Ansi16,
        RenderProfile::Ansi256,
        RenderProfile::Truecolor,
    ] {
        let mut encoder = DefaultAsciiEncoder::new();
        let encoded = encoder.encode(&raw, profile).unwrap();
        let p = &encoded.payload;
        assert!(p.ends_with(b"\x1b[0m"));
        assert_eq!(p.iter().filter(|&&b| b == b'\n').count(), 24);
    }
    let mut encoder = DefaultAsciiEncoder::new();
    let p = encoder.encode(&raw, RenderProfile::MonochromeAscii).unwrap().payload;
    assert_eq!(p.len(), 1948);
    for r in 0..24 {
        assert_eq!(p[81 * r + 80], b'\n');
    }
    for &b in &p[..1944] {
        assert!(b == b'\n' || b" .:-=+*#%@".contains(&b));
    }
}
