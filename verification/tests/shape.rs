use backlight::color::Color;
use backlight::config::Level;
use backlight::shape::{highest_channel_level, shape_color, weigh_channel};

fn level(thousandths: i64) -> Level {
    Level::from_thousandths(thousandths).unwrap()
}

fn full(red: u8, green: u8, blue: u8) -> Color {
    shape_color(Color::new(red, green, blue), Level::full(), Level::full())
}

#[test]
fn black_cell_gives_a_dark_light() {
    assert_eq!(full(0, 0, 0), Color::new(0, 0, 0));
    for b in [0, 1, 500, 1000] {
        for i in [0, 1, 500, 1000] {
            let out = shape_color(Color::new(0, 0, 0), level(b), level(i));
            assert_eq!(out, Color::new(0, 0, 0));
            assert!(out.is_black());
        }
    }
}

#[test]
fn mid_gray_is_shaped_to_147() {
    assert_eq!(full(128, 128, 128), Color::new(147, 147, 147));
}

#[test]
fn any_gray_is_shaped_to_the_same_gray() {
    for v in 1..=255u8 {
        assert_eq!(full(v, v, v), Color::new(147, 147, 147));
    }
}

#[test]
fn a_single_channel_is_driven_to_full() {
    for v in 1..=255u8 {
        assert_eq!(full(v, 0, 0), Color::new(255, 0, 0));
        assert_eq!(full(0, v, 0), Color::new(0, 255, 0));
        assert_eq!(full(0, 0, v), Color::new(0, 0, 255));
    }
}

#[test]
fn shaped_values_follow_the_formula() {
    assert_eq!(full(255, 128, 0), Color::new(240, 85, 0));
    assert_eq!(full(10, 20, 30), Color::new(42, 120, 220));
    assert_eq!(full(30, 20, 10), Color::new(220, 120, 42));
    assert_eq!(full(3, 4, 0), Color::new(138, 213, 0));
    assert_eq!(full(255, 255, 0), Color::new(180, 180, 0));
    assert_eq!(full(64, 128, 255), Color::new(29, 84, 238));
    assert_eq!(full(255, 255, 255), Color::new(147, 147, 147));
}

#[test]
fn brightness_scales_the_output() {
    let c = Color::new(200, 100, 50);
    assert_eq!(shape_color(c, level(1000), level(1000)), Color::new(238, 84, 29));
    assert_eq!(shape_color(c, level(500), level(1000)), Color::new(119, 42, 14));
    assert_eq!(shape_color(c, level(0), level(1000)), Color::new(0, 0, 0));
    assert_eq!(shape_color(Color::new(0, 0, 7), level(750), level(1000)), Color::new(0, 0, 191));
}

#[test]
fn intensity_above_zero_changes_nothing() {
    let c = Color::new(200, 100, 50);
    for i in [1, 2, 250, 999, 1000] {
        assert_eq!(shape_color(c, level(1000), level(i)), Color::new(238, 84, 29));
    }
    assert_eq!(shape_color(Color::new(1, 1, 1), level(1000), level(1)), Color::new(147, 147, 147));
}

#[test]
fn intensity_zero_darkens_everything() {
    assert_eq!(shape_color(Color::new(200, 100, 50), level(1000), level(0)), Color::new(0, 0, 0));
    assert_eq!(shape_color(Color::new(255, 255, 255), level(1000), level(0)), Color::new(0, 0, 0));
}

#[test]
fn shaped_colors_have_at_most_unit_length() {
    let mut seed: u32 = 99;
    for _ in 0..2000 {
        seed = seed.wrapping_mul(1664525).wrapping_add(1013904223);
        let c = Color::new((seed >> 24) as u8, (seed >> 16) as u8, (seed >> 8) as u8);
        let b = (seed % 1001) as i64;
        let out = shape_color(c, level(b), Level::full());
        let len2 = (out.red as u32).pow(2) + (out.green as u32).pow(2) + (out.blue as u32).pow(2);
        assert!(len2 <= 65025);
        if b == 1000 && !c.is_black() {
            // Rounding down costs each channel less than one step.
            let up = (out.red as u32 + 1).pow(2)
                + (out.green as u32 + 1).pow(2)
                + (out.blue as u32 + 1).pow(2);
            assert!(up > 65025);
        }
    }
}

#[test]
fn channel_order_is_kept() {
    let out = full(90, 60, 30);
    assert!(out.red > out.green && out.green > out.blue);
    let swapped = full(30, 60, 90);
    assert_eq!((swapped.red, swapped.green, swapped.blue), (out.blue, out.green, out.red));
}

#[test]
fn highest_level_is_the_root_rounded_down() {
    assert_eq!(highest_channel_level(0, 1), 0);
    assert_eq!(highest_channel_level(1, 1), 1);
    assert_eq!(highest_channel_level(3, 1), 1);
    assert_eq!(highest_channel_level(4, 1), 2);
    assert_eq!(highest_channel_level(21675, 1), 147);
    assert_eq!(highest_channel_level(65025, 3), 147);
    assert_eq!(highest_channel_level(65024, 1), 254);
    assert_eq!(highest_channel_level(65025, 1), 255);
    assert_eq!(highest_channel_level(1_000_000, 1), 255);
    assert_eq!(highest_channel_level(u128::MAX, 1), 255);
    assert_eq!(highest_channel_level(99, 100), 0);
    assert_eq!(highest_channel_level(100, 100), 1);
    assert_eq!(highest_channel_level(5, 0), 255);
}

#[test]
fn weights_are_cubes() {
    assert_eq!(weigh_channel(0, Level::full()), 0);
    assert_eq!(weigh_channel(1, Level::full()), 1_000_000_000);
    assert_eq!(weigh_channel(2, level(1)), 8);
    assert_eq!(weigh_channel(255, Level::full()), 16_581_375_000_000_000);
    assert_eq!(weigh_channel(255, level(0)), 0);
}
