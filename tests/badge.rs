use pake_shell::badge::{covers, red_dot_icon, update_badge, AND_MASK_LEN, XOR_MASK_LEN};

fn inside_by_float(x: u32, y: u32) -> bool {
    let dx = x as f32 - 7.5;
    let dy = y as f32 - 7.5;
    dx * dx + dy * dy <= 16.0
}

#[test]
fn icon_masks_have_exact_sizes() {
    let icon = red_dot_icon();
    assert_eq!(icon.and_mask.len(), 32);
    assert_eq!(icon.xor_mask.len(), 1024);
    assert_eq!(AND_MASK_LEN, 32);
    assert_eq!(XOR_MASK_LEN, 1024);
}

#[test]
fn icon_pixels_follow_the_circle() {
    let icon = red_dot_icon();
    let mut opaque = 0;
    for y in 0..16u32 {
        for x in 0..16u32 {
            let inside = inside_by_float(x, y);
            assert_eq!(covers(x, y), inside);
            let byte = icon.and_mask[(y * 2 + x / 8) as usize];
            let transparent = (byte >> (7 - x % 8)) & 1 == 1;
            assert_eq!(transparent, !inside);
            let p = ((y * 16 + x) * 4) as usize;
            let bgra = &icon.xor_mask[p..p + 4];
            if inside {
                opaque += 1;
                assert_eq!(bgra, &[0u8, 0, 255, 255]);
            } else {
                assert_eq!(bgra, &[0u8, 0, 0, 0]);
            }
        }
    }
    assert_eq!(opaque, 52);
}

#[test]
fn icon_centre_and_corner() {
    let icon = red_dot_icon();
    // pixel (7, 7) lies in byte 14, bit 0 from the top
    assert_eq!(icon.and_mask[14] & 0x01, 0);
    assert_eq!(icon.and_mask[0], 0xFF);
    assert_eq!(icon.xor_mask[0..4], [0, 0, 0, 0]);
    let centre = (7 * 16 + 7) * 4;
    assert_eq!(icon.xor_mask[centre + 2], 255);
}

#[test]
fn positive_count_shows_badge() {
    let update = update_badge(3);
    assert_eq!(update.count, Some(3));
    assert!(update.overlay.is_some());
}

#[test]
fn zero_after_positive_clears_overlay() {
    let shown = update_badge(7);
    assert!(shown.overlay.is_some());
    let cleared = update_badge(0);
    assert!(cleared.overlay.is_none());
    assert_eq!(cleared.count, None);
}

#[test]
fn negative_count_clears_badge() {
    let update = update_badge(-4);
    assert!(update.overlay.is_none());
    assert_eq!(update.count, None);
}
