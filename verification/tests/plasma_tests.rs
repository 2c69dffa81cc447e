use plasma_field::field::update_texture_data;
use plasma_field::plasma;
use plasma_field::trig::sin_fx;

fn alpha(c: u32) -> u32 {
    c >> 24
}

fn red(c: u32) -> u32 {
    c & 0xFF
}

fn green(c: u32) -> u32 {
    (c >> 8) & 0xFF
}

fn blue(c: u32) -> u32 {
    (c >> 16) & 0xFF
}

#[test]
fn sine_of_zero_is_zero() {
    assert_eq!(sin_fx(0), 0);
}

#[test]
fn sine_stays_in_unit_range() {
    let samples: Vec<i64> = vec![-655360, -102944, -1, 0, 1, 51472, 102944, 205887, 4691249610752];
    for v in samples {
        let s = sin_fx(v);
        assert!(-65536 <= s && s <= 65536);
    }
}

#[test]
fn origin_pixel_is_neutral_gray() {
    // width = 1, height = 1, frame = 0: every sinusoid is evaluated at zero,
    // so each channel is 127 and the packed color is alpha 0xFF over three
    // 0x7F bytes.
    assert_eq!(plasma(0, 0, 1, 1, 0), 0xFF7F7F7F);
}

#[test]
fn identical_inputs_give_identical_colors() {
    let cases = [
        (0, 0, 1, 1, 0u32),
        (3, 5, 16, 9, 7),
        (127, 63, 128, 64, 123456),
        (0, 17, 33, 18, u32::MAX),
    ];
    for &(x, y, w, h, frame) in cases.iter() {
        assert_eq!(plasma(x, y, w, h, frame), plasma(x, y, w, h, frame));
    }
}

#[test]
fn alpha_byte_is_always_opaque() {
    for frame in [0u32, 1, 59, 60, 3600, u32::MAX] {
        for y in 0..7 {
            for x in 0..11 {
                assert_eq!(alpha(plasma(x, y, 11, 7, frame)), 0xFF);
            }
        }
    }
}

#[test]
fn color_channels_stay_within_byte_range() {
    for frame in [0u32, 17, 300, 100000, u32::MAX] {
        for y in 0..9 {
            for x in 0..13 {
                let c = plasma(x, y, 13, 9, frame);
                assert!(red(c) <= 254);
                assert!(green(c) <= 254);
                assert!(blue(c) <= 254);
            }
        }
    }
}

#[test]
fn writer_populates_every_slot() {
    // No produced color has a zero alpha byte, so a buffer of zeros shows
    // exactly which slots were written.
    let w: i32 = 12;
    let h: i32 = 5;
    let mut buf: Vec<u32> = vec![0; (w * h) as usize];
    update_texture_data(&mut buf, w, h, 42);
    for &c in buf.iter() {
        assert_eq!(alpha(c), 0xFF);
    }
}

#[test]
fn writer_leaves_slots_past_the_raster_untouched() {
    let w: i32 = 4;
    let h: i32 = 3;
    let mut buf: Vec<u32> = vec![7; (w * h) as usize + 5];
    update_texture_data(&mut buf, w, h, 9);
    for i in 0..(w * h) as usize {
        assert_eq!(alpha(buf[i]), 0xFF);
    }
    for i in (w * h) as usize..buf.len() {
        assert_eq!(buf[i], 7);
    }
}

#[test]
fn zero_dimensions_write_nothing() {
    let mut buf: Vec<u32> = vec![123; 6];
    update_texture_data(&mut buf, 0, 9, 5);
    assert_eq!(buf, vec![123; 6]);
    update_texture_data(&mut buf, 9, 0, 5);
    assert_eq!(buf, vec![123; 6]);
}

#[test]
fn slots_follow_row_major_order() {
    let mut buf: Vec<u32> = vec![0; 4];
    update_texture_data(&mut buf, 2, 2, 77);
    assert_eq!(buf[0], plasma(0, 0, 2, 2, 77));
    assert_eq!(buf[1], plasma(1, 0, 2, 2, 77));
    assert_eq!(buf[2], plasma(0, 1, 2, 2, 77));
    assert_eq!(buf[3], plasma(1, 1, 2, 2, 77));
}

#[test]
fn advancing_frames_vary_the_color() {
    let first = plasma(0, 0, 2, 2, 0);
    let mut changed = false;
    for frame in 1u32..=120 {
        if plasma(0, 0, 2, 2, frame) != first {
            changed = true;
        }
    }
    assert!(changed);
}
