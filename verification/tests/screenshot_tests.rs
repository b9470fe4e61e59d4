use base64::Engine;
use cluddy::screenshot::{
    count_ones, encode_frame, hash_from_thumbnail, monitor_at, screens_differ, Frame, MonitorArea,
};

#[test]
fn counting_bits() {
    for x in [0u64, 1, 0xff, u64::MAX, 0x8000_0000_0000_0001, 0x1234_5678_9abc_def0] {
        assert_eq!(count_ones(x), x.count_ones());
    }
}

#[test]
fn screens_differ_above_ten_bits() {
    let a = [0u64; 4];
    assert!(screens_differ(&a, &[0x7ff, 0, 0, 0]));
    assert!(!screens_differ(&a, &[0x3ff, 0, 0, 0]));
    assert!(screens_differ(&a, &[0x3ff, 0, 0, 1]));
    assert!(!screens_differ(&[5, 6, 7, 8], &[5, 6, 7, 8]));
    let b = [u64::MAX, 0, 1, 2];
    assert_eq!(screens_differ(&a, &b), screens_differ(&b, &a));
}

#[test]
fn average_hash_of_a_gradient() {
    let pixels: Vec<u8> = (0..256).map(|i| i as u8).collect();
    // mean of 0..=255 is 127 (rounded down): pixels 128.. are brighter
    assert_eq!(hash_from_thumbnail(&pixels), [0, 0, u64::MAX, u64::MAX]);
    let flat = vec![200u8; 256];
    assert_eq!(hash_from_thumbnail(&flat), [0; 4]);
    let mut one = vec![0u8; 256];
    one[65] = 9;
    assert_eq!(hash_from_thumbnail(&one), [0, 2, 0, 0]);
}

fn area(x: i32, y: i32, width: u32, height: u32) -> MonitorArea {
    MonitorArea { x, y, width, height }
}

#[test]
fn monitor_under_the_cursor() {
    let ms = vec![area(0, 0, 1920, 1080), area(1920, 0, 1280, 1024)];
    assert_eq!(monitor_at(&ms, 2000, 10), Ok(1));
    assert_eq!(monitor_at(&ms, 1919, 1079), Ok(0));
    assert_eq!(monitor_at(&ms, 1920, 1023), Ok(1));
    // below the smaller monitor nothing shows the cursor: the first monitor is taken
    assert_eq!(monitor_at(&ms, 1920, 1079), Ok(0));
    assert_eq!(monitor_at(&ms, -5, -5), Ok(0));
    assert_eq!(monitor_at(&vec![], 0, 0), Err("No monitor found".to_string()));
}

#[test]
fn encoding_a_capture() {
    let (w, h) = (40u32, 30u32);
    let frame = Frame { width: w, height: h, rgba: vec![90u8; (w * h * 4) as usize] };
    let (b64, hash) = encode_frame(frame).unwrap();
    // a JPEG starts with FF D8 FF, which base64 writes as "/9j/"
    assert!(b64.starts_with("/9j/"));
    assert_eq!(b64.len() % 4, 0);
    // a uniform screen has the all-zero hash
    assert_eq!(hash, [0; 4]);
}

#[test]
fn wide_captures_are_scaled_down() {
    let (w, h) = (2400u32, 20u32);
    let mut rgba = vec![0u8; (w * h * 4) as usize];
    for (i, px) in rgba.chunks_mut(4).enumerate() {
        let v = if (i as u32 % w) < w / 2 { 10 } else { 240 };
        px.copy_from_slice(&[v, v, v, 255]);
    }
    let (b64, hash) = encode_frame(Frame { width: w, height: h, rgba }).unwrap();
    assert!(b64.starts_with("/9j/"));
    // the right half is brighter: in each row of the 16x16 thumbnail the last 8 bits are set
    for row in 0..16 {
        let word = hash[row / 4];
        let bits = (word >> ((row % 4) * 16)) & 0xffff;
        assert_eq!(bits, 0xff00, "row {row}");
    }
}

#[test]
fn wide_captures_are_sent_at_most_1920_wide() {
    let (w, h) = (2400u32, 20u32);
    let frame = Frame { width: w, height: h, rgba: vec![128u8; (w * h * 4) as usize] };
    let (b64, _) = encode_frame(frame).unwrap();
    let jpeg = base64::engine::general_purpose::STANDARD.decode(b64).unwrap();
    let img = image::load_from_memory(&jpeg).unwrap();
    assert_eq!((img.width(), img.height()), (1920, 16));
}
