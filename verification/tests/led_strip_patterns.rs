use devminds_lamp::led_strip_patterns::{
    devminds_blue, devminds_green, devminds_orange, led_strip_pattern, led_strip_patterns,
    mark_indices_seen, red, validate_pixel_map, white, PatternKind, Rgb8, DEFAULT_PATTERN_INDEX,
    DEVMINDS_LAMP_BLUE_PIXELS, DEVMINDS_LAMP_GREEN_PIXELS, DEVMINDS_LAMP_LED_NUM,
    DEVMINDS_LAMP_ORANGE_PIXELS, DEVMINDS_TEXT_PIXELS, LED_STRIP_PATTERN_COUNT,
};

fn pattern_index_by_name(name: &str) -> usize {
    led_strip_patterns()
        .iter()
        .position(|pattern| pattern.name == name)
        .expect("Pattern must exist")
}

fn render_pattern(index: usize) -> [Rgb8; DEVMINDS_LAMP_LED_NUM] {
    let mut colors = [Rgb8::default(); DEVMINDS_LAMP_LED_NUM];
    let pattern = &led_strip_patterns()[index];

    pattern.render(&mut colors, 0);

    colors
}

#[test]
fn default_pattern_renders_brand_colors() {
    let colors = render_pattern(DEFAULT_PATTERN_INDEX);

    for &index in &DEVMINDS_LAMP_BLUE_PIXELS {
        assert_eq!(colors[index], devminds_blue());
    }
    for &index in &DEVMINDS_LAMP_GREEN_PIXELS {
        assert_eq!(colors[index], devminds_green());
    }
    for &index in &DEVMINDS_LAMP_ORANGE_PIXELS {
        assert_eq!(colors[index], devminds_orange());
    }
    for &index in &DEVMINDS_TEXT_PIXELS {
        assert_eq!(colors[index], red());
    }
}

#[test]
fn white_pattern_fills_every_pixel() {
    let colors = render_pattern(pattern_index_by_name("White"));

    assert!(colors.iter().all(|pixel| *pixel == white()));
}

#[test]
fn rainbow_pattern_is_deterministic_and_wraps_every_256_frames() {
    let pattern = &led_strip_patterns()[pattern_index_by_name("Rainbow")];
    let mut frame_0 = [Rgb8::default(); DEVMINDS_LAMP_LED_NUM];
    let mut frame_1 = [Rgb8::default(); DEVMINDS_LAMP_LED_NUM];
    let mut frame_256 = [Rgb8::default(); DEVMINDS_LAMP_LED_NUM];

    pattern.render(&mut frame_0, 0);
    pattern.render(&mut frame_1, 1);
    pattern.render(&mut frame_256, 256);

    assert_ne!(frame_0, frame_1);
    assert_eq!(frame_0, frame_256);
}

#[test]
fn brand_colors_have_their_values() {
    assert_eq!(devminds_blue(), Rgb8 { r: 10, g: 46, b: 120 });
    assert_eq!(devminds_green(), Rgb8 { r: 10, g: 100, b: 10 });
    assert_eq!(devminds_orange(), Rgb8 { r: 150, g: 38, b: 0 });
    assert_eq!(red(), Rgb8 { r: 255, g: 0, b: 0 });
    assert_eq!(white(), Rgb8 { r: 255, g: 255, b: 255 });
    assert_eq!(Rgb8::default(), Rgb8 { r: 0, g: 0, b: 0 });
}

#[test]
fn pixel_map_lists_every_led_once() {
    validate_pixel_map();
    let mut counts = [0usize; DEVMINDS_LAMP_LED_NUM];
    for &index in DEVMINDS_LAMP_BLUE_PIXELS
        .iter()
        .chain(DEVMINDS_LAMP_GREEN_PIXELS.iter())
        .chain(DEVMINDS_LAMP_ORANGE_PIXELS.iter())
        .chain(DEVMINDS_TEXT_PIXELS.iter())
    {
        counts[index] += 1;
    }
    assert!(counts.iter().all(|&count| count == 1));
}

#[test]
fn mark_indices_seen_sets_one_bit_per_index() {
    let mut seen: u64 = 0b1;
    mark_indices_seen(&[1, 3, 30], &mut seen);
    assert_eq!(seen, 0b1 | 0b10 | 0b1000 | (1u64 << 30));

    let mut seen: u64 = 0;
    mark_indices_seen(&[], &mut seen);
    assert_eq!(seen, 0);

    let mut seen: u64 = 0;
    mark_indices_seen(&DEVMINDS_LAMP_BLUE_PIXELS, &mut seen);
    mark_indices_seen(&DEVMINDS_LAMP_GREEN_PIXELS, &mut seen);
    mark_indices_seen(&DEVMINDS_LAMP_ORANGE_PIXELS, &mut seen);
    mark_indices_seen(&DEVMINDS_TEXT_PIXELS, &mut seen);
    assert_eq!(seen, (1u64 << 31) - 1);
    assert_eq!(seen.count_ones() as usize, DEVMINDS_LAMP_LED_NUM);
}

#[test]
fn brand_pattern_ignores_the_frame_number() {
    let pattern = led_strip_pattern(0);
    let mut a = [Rgb8::default(); DEVMINDS_LAMP_LED_NUM];
    let mut b = [white(); DEVMINDS_LAMP_LED_NUM];
    pattern.render(&mut a, 0);
    pattern.render(&mut b, 12345);
    assert_eq!(a, b);
    assert_eq!(a[1], devminds_blue());
    assert_eq!(a[0], devminds_green());
    assert_eq!(a[5], devminds_orange());
    assert_eq!(a[30], red());
}

#[test]
fn white_pattern_ignores_the_frame_number() {
    let pattern = led_strip_pattern(2);
    assert_eq!(pattern.kind, PatternKind::White);
    let mut a = [Rgb8::default(); DEVMINDS_LAMP_LED_NUM];
    pattern.render(&mut a, u32::MAX);
    assert_eq!(a, [white(); DEVMINDS_LAMP_LED_NUM]);
}

/// The wheel, written out from its three arcs.
fn expected_wheel(position: u8) -> Rgb8 {
    let w = 255 - position as i32;
    let (r, g, b) = if w < 85 {
        (255 - 3 * w, 0, 3 * w)
    } else if w < 170 {
        (0, 3 * (w - 85), 255 - 3 * (w - 85))
    } else {
        (3 * (w - 170), 255 - 3 * (w - 170), 0)
    };
    Rgb8 { r: r as u8, g: g as u8, b: b as u8 }
}

#[test]
fn rainbow_pixels_follow_the_wheel() {
    let pattern = led_strip_pattern(1);
    let mut colors = [Rgb8::default(); DEVMINDS_LAMP_LED_NUM];
    pattern.render(&mut colors, 0);
    assert_eq!(colors[0], Rgb8 { r: 255, g: 0, b: 0 });
    assert_eq!(colors[1], Rgb8 { r: 231, g: 24, b: 0 });
    for frame in [0u32, 7, 200, 255, 300, u32::MAX] {
        pattern.render(&mut colors, frame);
        for (index, pixel) in colors.iter().enumerate() {
            let position = ((index * 256 / DEVMINDS_LAMP_LED_NUM + (frame % 256) as usize) % 256) as u8;
            assert_eq!(*pixel, expected_wheel(position));
        }
    }
}

#[test]
fn rainbow_changes_across_the_counter_wrap() {
    let pattern = led_strip_pattern(1);
    let mut last = [Rgb8::default(); DEVMINDS_LAMP_LED_NUM];
    let mut first = [Rgb8::default(); DEVMINDS_LAMP_LED_NUM];
    pattern.render(&mut last, u32::MAX);
    pattern.render(&mut first, 0);
    assert_ne!(last, first);
    let mut same = [Rgb8::default(); DEVMINDS_LAMP_LED_NUM];
    pattern.render(&mut same, 255);
    assert_eq!(last, same);
}

#[test]
fn catalogue_lists_three_named_patterns() {
    let patterns = led_strip_patterns();
    assert_eq!(patterns.len(), LED_STRIP_PATTERN_COUNT);
    assert_eq!(patterns[0].name, "Brand Colors");
    assert_eq!(patterns[0].kind, PatternKind::BrandColors);
    assert_eq!(patterns[1].name, "Rainbow");
    assert_eq!(patterns[1].kind, PatternKind::Rainbow);
    assert_eq!(patterns[2].name, "White");
    assert_eq!(patterns[2].kind, PatternKind::White);
}

#[test]
fn marking_never_clears_bits_and_counts_indices() {
    let before: u64 = (1 << 2) | (1 << 9) | (1 << 40);
    let mut seen = before;
    mark_indices_seen(&[0, 5, 30, 17], &mut seen);
    assert_eq!(before & !seen, 0);
    assert_eq!(seen.count_ones(), before.count_ones() + 4);
    assert_eq!(seen, before | 1 | (1 << 5) | (1 << 30) | (1 << 17));

    let mut unchanged = before;
    mark_indices_seen(&[], &mut unchanged);
    assert_eq!(unchanged, before);
}

#[test]
fn any_split_of_the_strip_marks_one_bit_per_led() {
    let groups: [&[usize]; 4] = [
        &[30, 0, 15],
        &[1, 2, 3, 4, 5, 6, 7, 8, 9, 10],
        &[],
        &[11, 12, 13, 14, 16, 17, 18, 19, 20, 21, 22, 23, 24, 25, 26, 27, 28, 29],
    ];
    let mut seen: u64 = 0;
    for group in groups {
        mark_indices_seen(group, &mut seen);
    }
    assert_eq!(seen.count_ones() as usize, DEVMINDS_LAMP_LED_NUM);
    assert_eq!(seen, (1u64 << 31) - 1);
}
