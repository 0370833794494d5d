use fox32::display::{blit_overlay, overlay_fits, overlays_fit, Display, Overlay, FRAMEBUFFER_ADDRESS, FRAME_BYTES, OVERLAY_COUNT, WIDTH};
use fox32::memory::Memory;

fn red_overlay(ram: &mut Vec<u8>, at: usize, width: usize, height: usize) {
    for p in 0..width * height {
        ram[at + p * 4] = 255;
        ram[at + p * 4 + 1] = 0;
        ram[at + p * 4 + 2] = 0;
        ram[at + p * 4 + 3] = 255;
    }
}

fn ram_with_frame() -> Vec<u8> {
    vec![0u8; FRAMEBUFFER_ADDRESS + FRAME_BYTES]
}

#[test]
fn new_display_is_black_with_disabled_slots() {
    let d = Display::new();
    assert_eq!(d.background.len(), FRAME_BYTES);
    assert!(d.background.iter().all(|&b| b == 0));
    assert_eq!(d.overlays.len(), OVERLAY_COUNT);
    for o in &d.overlays {
        assert!(!o.enabled);
        assert_eq!((o.width, o.height, o.x, o.y, o.framebuffer_pointer), (16, 16, 0, 0, 0));
    }
}

#[test]
fn snapshot_shows_framebuffer_bytes() {
    let mut m = Memory::new(&[]);
    assert!(m.write_u8(0x02000000, 0xDE).is_ok());
    assert!(m.write_u8(0x02000001, 0xAD).is_ok());
    assert!(m.write_u8(0x02000002, 0xBE).is_ok());
    assert!(m.write_u8(0x02000003, 0xEF).is_ok());
    let mut d = Display::new();
    d.update(m.ram());
    assert_eq!(&d.background[0..4], &[0xDE, 0xAD, 0xBE, 0xEF]);
}

#[test]
fn overlay_clipped_at_right_edge() {
    let mut ram = ram_with_frame();
    for i in 0..FRAME_BYTES {
        ram[FRAMEBUFFER_ADDRESS + i] = 7;
    }
    red_overlay(&mut ram, 0x1000, 16, 16);
    let mut d = Display::new();
    d.overlays[0] = Overlay { enabled: true, width: 16, height: 16, x: 635, y: 0, framebuffer_pointer: 0x1000 };
    d.update(&ram);
    for row in 0..16 {
        for col in 635..640 {
            let i = (row * WIDTH + col) * 4;
            assert_eq!(&d.background[i..i + 4], &[255, 0, 0, 255]);
        }
        // the pixel that follows column 639 starts the next row, untouched
        let next = ((row + 1) * WIDTH) * 4;
        assert_eq!(&d.background[next..next + 4], &[7, 7, 7, 7]);
        let before = (row * WIDTH + 634) * 4;
        assert_eq!(&d.background[before..before + 4], &[7, 7, 7, 7]);
    }
    let below = (16 * WIDTH + 635) * 4;
    assert_eq!(&d.background[below..below + 4], &[7, 7, 7, 7]);
}

#[test]
fn overlay_source_rows_use_full_width() {
    let mut ram = ram_with_frame();
    // a 4 by 2 overlay whose second row is green, drawn with two columns cut off
    red_overlay(&mut ram, 0x2000, 4, 1);
    for p in 0..4 {
        let a = 0x2000 + 16 + p * 4;
        ram[a..a + 4].copy_from_slice(&[0, 255, 0, 255]);
    }
    let mut fb = vec![0u8; FRAME_BYTES];
    let ov = Overlay { enabled: true, width: 4, height: 2, x: 638, y: 10, framebuffer_pointer: 0x2000 };
    blit_overlay(&mut fb, &ov, &ram);
    let r0 = (10 * WIDTH + 638) * 4;
    let r1 = (11 * WIDTH + 638) * 4;
    assert_eq!(&fb[r0..r0 + 8], &[255, 0, 0, 255, 255, 0, 0, 255]);
    assert_eq!(&fb[r1..r1 + 8], &[0, 255, 0, 255, 0, 255, 0, 255]);
}

#[test]
fn transparent_pixels_are_skipped() {
    let mut ram = ram_with_frame();
    ram[0x3000..0x3008].copy_from_slice(&[1, 2, 3, 0, 4, 5, 6, 9]);
    let mut fb = vec![8u8; FRAME_BYTES];
    let ov = Overlay { enabled: true, width: 2, height: 1, x: 0, y: 0, framebuffer_pointer: 0x3000 };
    blit_overlay(&mut fb, &ov, &ram);
    assert_eq!(&fb[0..8], &[8, 8, 8, 8, 4, 5, 6, 9]);
    assert_eq!(fb[8], 8);
}

#[test]
fn overlay_off_screen_draws_nothing() {
    let ram = ram_with_frame();
    let mut fb = vec![3u8; FRAME_BYTES];
    let ov = Overlay { enabled: true, width: 2, height: 2, x: 640, y: 479, framebuffer_pointer: 0 };
    blit_overlay(&mut fb, &ov, &ram);
    assert!(fb.iter().all(|&b| b == 3));
}

#[test]
fn higher_slot_draws_on_top() {
    let mut ram = ram_with_frame();
    ram[0x4000..0x4004].copy_from_slice(&[1, 1, 1, 1]);
    ram[0x5000..0x5004].copy_from_slice(&[2, 2, 2, 2]);
    let mut d = Display::new();
    d.overlays[3] = Overlay { enabled: true, width: 1, height: 1, x: 5, y: 5, framebuffer_pointer: 0x5000 };
    d.overlays[1] = Overlay { enabled: true, width: 1, height: 1, x: 5, y: 5, framebuffer_pointer: 0x4000 };
    d.overlays[2] = Overlay { enabled: false, width: 1, height: 1, x: 5, y: 5, framebuffer_pointer: 0x4000 };
    d.update(&ram);
    let i = (5 * WIDTH + 5) * 4;
    assert_eq!(&d.background[i..i + 4], &[2, 2, 2, 2]);
}

#[test]
fn compositing_twice_gives_same_frame() {
    let mut ram = ram_with_frame();
    for i in 0..FRAME_BYTES {
        ram[FRAMEBUFFER_ADDRESS + i] = (i % 251) as u8;
    }
    red_overlay(&mut ram, 0x1000, 16, 16);
    let mut d = Display::new();
    d.overlays[7] = Overlay { enabled: true, width: 16, height: 16, x: 100, y: 470, framebuffer_pointer: 0x1000 };
    d.update(&ram);
    let first = d.background.clone();
    d.update(&ram);
    assert_eq!(first, d.background);
    let mut again = first.clone();
    blit_overlay(&mut again, &d.overlays[7], &ram);
    assert_eq!(first, again);
}

#[test]
fn draw_copies_whole_pixels() {
    let mut d = Display::new();
    for i in 0..16 {
        d.background[i] = i as u8 + 1;
    }
    let mut frame = vec![0u8; 10];
    d.draw(&mut frame);
    assert_eq!(frame, vec![1, 2, 3, 4, 5, 6, 7, 8, 0, 0]);
    let mut full = vec![9u8; FRAME_BYTES];
    d.draw(&mut full);
    assert_eq!(full, d.background);
}

#[test]
fn overlay_must_lie_in_ram() {
    let ov = Overlay { enabled: true, width: 16, height: 16, x: 0, y: 0, framebuffer_pointer: 0x100 };
    assert!(overlay_fits(&ov, 0x100 + 1024));
    assert!(!overlay_fits(&ov, 0x100 + 1023));
    let huge = Overlay { enabled: true, width: usize::MAX, height: usize::MAX, x: 0, y: 0, framebuffer_pointer: 0 };
    assert!(!overlay_fits(&huge, usize::MAX));
    let mut d = Display::new();
    assert!(overlays_fit(&d.overlays, 0));
    d.overlays[5] = ov;
    assert!(!overlays_fit(&d.overlays, 0x400));
    d.overlays[5].enabled = false;
    assert!(overlays_fit(&d.overlays, 0x400));
}
