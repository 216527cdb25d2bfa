use tiny_clippy::animation::{push_clip, Animation, AnimationClip, AnimationConfig};
use tiny_clippy::compositor::{extract, pack_frame_0rgb, SpriteSheet};
use tiny_clippy::{FRAME_H, FRAME_W};

const FRAME_BYTES: usize = 4 * FRAME_W as usize * FRAME_H as usize;

fn blank_sheet(width: u32, height: u32) -> Vec<u8> {
    vec![0u8; 4 * width as usize * height as usize]
}

fn set_pixel(pixels: &mut [u8], width: u32, x: u32, y: u32, rgba: [u8; 4]) {
    let idx = 4 * (y as usize * width as usize + x as usize);
    pixels[idx..idx + 4].copy_from_slice(&rgba);
}

fn get_pixel(frame: &[u8], x: u32, y: u32) -> [u8; 4] {
    let idx = 4 * (y as usize * FRAME_W as usize + x as usize);
    [frame[idx], frame[idx + 1], frame[idx + 2], frame[idx + 3]]
}

#[test]
fn sheet_rejects_mismatched_buffer() {
    assert!(SpriteSheet::new(10, 10, vec![0u8; 4 * 10 * 10]).is_some());
    assert!(SpriteSheet::new(10, 10, vec![0u8; 4 * 10 * 10 - 1]).is_none());
    assert!(SpriteSheet::new(10, 10, vec![0u8; 4 * 10 * 10 + 4]).is_none());
}

#[test]
fn extract_is_frame_sized_regardless_of_sheet_size() {
    // A sheet far smaller than one frame cell still yields a full buffer,
    // with every out-of-bounds source pixel transparent.
    let mut pixels = blank_sheet(2, 2);
    set_pixel(&mut pixels, 2, 0, 0, [9, 8, 7, 255]);
    set_pixel(&mut pixels, 2, 1, 1, [1, 2, 3, 200]);
    let sheet = SpriteSheet::new(2, 2, pixels).unwrap();
    let frame = extract(&sheet, 0, 0);
    assert_eq!(frame.len(), FRAME_BYTES);
    assert_eq!(get_pixel(&frame, 0, 0), [9, 8, 7, 255]);
    assert_eq!(get_pixel(&frame, 1, 1), [1, 2, 3, 200]);
    assert_eq!(get_pixel(&frame, 2, 0), [0, 0, 0, 0]);
    assert_eq!(get_pixel(&frame, 0, 2), [0, 0, 0, 0]);
    assert_eq!(get_pixel(&frame, 123, 92), [0, 0, 0, 0]);
}

#[test]
fn extract_beyond_the_sheet_is_fully_transparent() {
    let sheet = SpriteSheet::new(2, 2, blank_sheet(2, 2)).unwrap();
    let frame = extract(&sheet, 7, 30);
    assert_eq!(frame.len(), FRAME_BYTES);
    assert!(frame.iter().all(|&b| b == 0));
}

#[test]
fn alpha_at_or_under_the_threshold_is_dropped() {
    let mut pixels = blank_sheet(FRAME_W, FRAME_H);
    set_pixel(&mut pixels, FRAME_W, 0, 0, [50, 60, 70, 10]);
    set_pixel(&mut pixels, FRAME_W, 1, 0, [50, 60, 70, 11]);
    set_pixel(&mut pixels, FRAME_W, 2, 0, [50, 60, 70, 0]);
    let sheet = SpriteSheet::new(FRAME_W, FRAME_H, pixels).unwrap();
    let frame = extract(&sheet, 0, 0);
    assert_eq!(get_pixel(&frame, 0, 0), [0, 0, 0, 0]);
    assert_eq!(get_pixel(&frame, 1, 0), [50, 60, 70, 11]);
    assert_eq!(get_pixel(&frame, 2, 0), [0, 0, 0, 0]);
}

#[test]
fn extract_picks_the_addressed_cell() {
    // Two cells wide, two tall: mark one pixel inside cell (1, 1).
    let width = 2 * FRAME_W;
    let height = 2 * FRAME_H;
    let mut pixels = blank_sheet(width, height);
    set_pixel(&mut pixels, width, FRAME_W + 3, FRAME_H + 5, [11, 22, 33, 255]);
    let sheet = SpriteSheet::new(width, height, pixels).unwrap();
    let frame = extract(&sheet, 1, 1);
    assert_eq!(get_pixel(&frame, 3, 5), [11, 22, 33, 255]);
    assert_eq!(get_pixel(&frame, 4, 5), [0, 0, 0, 0]);
    let other = extract(&sheet, 0, 0);
    assert!(other.iter().all(|&b| b == 0));
}

#[test]
fn extract_twice_gives_identical_buffers() {
    let mut pixels = blank_sheet(FRAME_W, FRAME_H);
    for i in 0..40u32 {
        set_pixel(&mut pixels, FRAME_W, i, i % FRAME_H, [i as u8, 7, 9, 128]);
    }
    let sheet = SpriteSheet::new(FRAME_W, FRAME_H, pixels).unwrap();
    let first = extract(&sheet, 0, 0);
    let second = extract(&sheet, 0, 0);
    assert_eq!(first, second);
}

#[test]
fn packed_words_lay_out_rgb_bits() {
    let mut pixels = blank_sheet(FRAME_W, FRAME_H);
    set_pixel(&mut pixels, FRAME_W, 0, 0, [0xAB, 0xCD, 0xEF, 255]);
    set_pixel(&mut pixels, FRAME_W, 1, 0, [1, 2, 3, 4]); // under the threshold
    let sheet = SpriteSheet::new(FRAME_W, FRAME_H, pixels).unwrap();
    let frame = extract(&sheet, 0, 0);
    let words = pack_frame_0rgb(&frame);
    assert_eq!(words.len(), FRAME_W as usize * FRAME_H as usize);
    assert_eq!(words[0], 0x00AB_CDEF);
    assert_eq!(words[1], 0);
}

#[test]
fn end_to_end_sheet_scenario() {
    // A sheet of 27 cells per row (124 * 27 = 3348 px wide) and one row tall:
    // force a clip [5, 10], tick at a 66 ms cadence, and after six more ticks
    // (396 ms) the controller cools down and shows the rest pose again.
    let width = 27 * FRAME_W; // 3348
    let height = FRAME_H; // 93
    let mut pixels = blank_sheet(width, height);
    // A marker inside cell (5, 0) and one inside the rest cell (0, 0).
    set_pixel(&mut pixels, width, 5 * FRAME_W + 1, 2, [100, 101, 102, 255]);
    set_pixel(&mut pixels, width, 0, 0, [5, 5, 5, 255]);
    let sheet = SpriteSheet::new(width, height, pixels).unwrap();

    let mut clips: Vec<AnimationClip> = Vec::new();
    push_clip(&mut clips, 5, 10);
    let config = AnimationConfig {
        frame_duration_ms: 66,
        idle_check_ms: 95,
        min_delay_ms: 9000,
        trigger_permille: 1000,
        frames_per_row: 27,
        clips,
    };
    let mut a = Animation::new(config, 0);

    let (col, row) = a.update_with(100, 0, 0);
    assert_eq!((col, row), (5, 0));
    let frame = extract(&sheet, col, row);
    assert_eq!(frame.len(), FRAME_BYTES);
    assert_eq!(get_pixel(&frame, 1, 2), [100, 101, 102, 255]);

    let mut now = 100;
    for _ in 0..6 {
        now += 66;
        a.update_with(now, 0, 0);
    }
    assert!(!a.is_playing());
    let coords = a.get_sprite_coordinates();
    assert_eq!(coords, (0, 0));
    let rest = extract(&sheet, coords.0, coords.1);
    assert_eq!(get_pixel(&rest, 0, 0), [5, 5, 5, 255]);
}
