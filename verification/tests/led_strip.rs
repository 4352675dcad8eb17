use devminds_lamp::buttons::ButtonAction;
use devminds_lamp::led_strip::{LampEvent, LedStripPatternGenerator};
use devminds_lamp::led_strip_patterns::{
    led_strip_patterns, PatternKind, Rgb8, DEFAULT_PATTERN_INDEX, DEVMINDS_LAMP_LED_NUM,
};

#[test]
fn default_static_pattern_changes_once_until_pattern_changes() {
    let mut lamp = LedStripPatternGenerator::new();

    assert!(lamp.render_next_frame());
    assert!(!lamp.render_next_frame());

    assert_eq!(
        lamp.current_pattern().name,
        led_strip_patterns()[DEFAULT_PATTERN_INDEX].name
    );
}

#[test]
fn white_static_pattern_changes_once_until_pattern_changes() {
    let mut lamp = LedStripPatternGenerator::new();
    lamp.next_pattern();
    lamp.next_pattern();

    assert!(lamp.render_next_frame());
    assert!(!lamp.render_next_frame());
}

#[test]
fn rainbow_mode_updates_every_frame() {
    let mut lamp = LedStripPatternGenerator::new();
    lamp.next_pattern();

    assert!(lamp.render_next_frame());
    let first_frame = *lamp.colors();

    assert!(lamp.render_next_frame());
    assert_ne!(lamp.colors(), &first_frame);
}

#[test]
fn switching_back_to_rainbow_restarts_animation() {
    let mut reference = LedStripPatternGenerator::new();
    reference.next_pattern();
    assert!(reference.render_next_frame());
    let initial_rainbow_frame = *reference.colors();

    let mut lamp = LedStripPatternGenerator::new();
    lamp.next_pattern();
    assert!(lamp.render_next_frame());
    assert!(lamp.render_next_frame());

    lamp.default_pattern();
    assert!(lamp.render_next_frame());

    lamp.next_pattern();
    assert!(lamp.render_next_frame());
    assert_eq!(lamp.colors(), &initial_rainbow_frame);
}

#[test]
fn white_pattern_second_frame_has_same_result_and_reports_no_change() {
    let mut lamp = LedStripPatternGenerator::new();
    lamp.previous_pattern();

    assert!(lamp.render_next_frame());
    let first_frame = *lamp.colors();

    assert!(!lamp.render_next_frame());
    assert_eq!(lamp.colors(), &first_frame);
}

#[test]
fn next_pattern_wraps() {
    let mut lamp = LedStripPatternGenerator::new();
    let patterns = led_strip_patterns();

    for expected_name in patterns.iter().skip(1).map(|pattern| pattern.name) {
        assert_eq!(lamp.next_pattern().name, expected_name);
    }

    assert_eq!(
        lamp.next_pattern().name,
        patterns[DEFAULT_PATTERN_INDEX].name
    );
}

#[test]
fn previous_pattern_wraps() {
    let mut lamp = LedStripPatternGenerator::new();
    let patterns = led_strip_patterns();

    assert_eq!(
        lamp.previous_pattern().name,
        patterns[patterns.len() - 1].name
    );
    assert_eq!(
        lamp.next_pattern().name,
        patterns[DEFAULT_PATTERN_INDEX].name
    );
}

#[test]
fn reset_returns_to_default_pattern() {
    let mut lamp = LedStripPatternGenerator::new();

    lamp.next_pattern();
    lamp.next_pattern();

    assert_eq!(
        lamp.default_pattern().name,
        led_strip_patterns()[DEFAULT_PATTERN_INDEX].name
    );
}

#[test]
fn new_lamp_is_dark_on_the_default_pattern() {
    let lamp = LedStripPatternGenerator::new();
    assert_eq!(lamp.colors(), &[Rgb8 { r: 0, g: 0, b: 0 }; DEVMINDS_LAMP_LED_NUM]);
    assert_eq!(lamp.current_pattern().kind, PatternKind::BrandColors);

    let lamp = LedStripPatternGenerator::default();
    assert_eq!(lamp.colors(), &[Rgb8::default(); DEVMINDS_LAMP_LED_NUM]);
    assert_eq!(lamp.current_pattern().name, "Brand Colors");
}

#[test]
fn previous_undoes_next_for_every_pattern() {
    let mut lamp = LedStripPatternGenerator::new();
    for _ in 0..3 {
        let start = lamp.current_pattern().name;
        lamp.next_pattern();
        assert_ne!(lamp.current_pattern().name, start);
        assert_eq!(lamp.previous_pattern().name, start);
        lamp.previous_pattern();
        assert_eq!(lamp.next_pattern().name, start);
        lamp.next_pattern();
    }
}

#[test]
fn next_pattern_cycles_with_period_three() {
    let mut lamp = LedStripPatternGenerator::new();
    lamp.next_pattern();
    let start = lamp.current_pattern().kind;
    lamp.next_pattern();
    lamp.next_pattern();
    assert_eq!(lamp.next_pattern().kind, start);
}

#[test]
fn rainbow_reports_a_change_on_every_frame() {
    let mut lamp = LedStripPatternGenerator::new();
    lamp.next_pattern();
    assert_eq!(lamp.current_pattern().kind, PatternKind::Rainbow);
    let mut previous = *lamp.colors();
    for _ in 0..600 {
        assert!(lamp.render_next_frame());
        assert_ne!(lamp.colors(), &previous);
        previous = *lamp.colors();
    }
}

#[test]
fn rainbow_frames_repeat_after_256_renders() {
    let mut lamp = LedStripPatternGenerator::new();
    lamp.next_pattern();
    lamp.render_next_frame();
    let first = *lamp.colors();
    for _ in 0..255 {
        lamp.render_next_frame();
        assert_ne!(lamp.colors(), &first);
    }
    lamp.render_next_frame();
    assert_eq!(lamp.colors(), &first);
}

#[test]
fn switching_keeps_the_frame_on_the_strip_until_the_next_render() {
    let mut lamp = LedStripPatternGenerator::new();
    lamp.render_next_frame();
    let brand = *lamp.colors();
    lamp.next_pattern();
    assert_eq!(lamp.colors(), &brand);
    assert!(lamp.render_next_frame());
    assert_ne!(lamp.colors(), &brand);
}

#[test]
fn frame_tick_renders_without_switching() {
    let mut lamp = LedStripPatternGenerator::new();
    let step = lamp.handle_event(LampEvent::FrameTick);
    assert!(step.frame_changed);
    assert!(step.switched_to.is_none());
    let step = lamp.handle_event(LampEvent::FrameTick);
    assert!(!step.frame_changed);
    assert!(step.switched_to.is_none());
}

#[test]
fn button_events_switch_then_render() {
    let mut lamp = LedStripPatternGenerator::new();
    lamp.handle_event(LampEvent::FrameTick);

    let step = lamp.handle_event(LampEvent::Button(ButtonAction::NextPattern));
    assert!(step.frame_changed);
    assert_eq!(step.switched_to.unwrap().name, "Rainbow");

    let step = lamp.handle_event(LampEvent::Button(ButtonAction::ResetToDefaultPattern));
    assert!(step.frame_changed);
    assert_eq!(step.switched_to.unwrap().name, "Brand Colors");

    // Reset while already on the default pattern: the frame stays the same.
    let step = lamp.handle_event(LampEvent::Button(ButtonAction::ResetToDefaultPattern));
    assert!(!step.frame_changed);
    assert_eq!(step.switched_to.unwrap().kind, PatternKind::BrandColors);

    let step = lamp.handle_event(LampEvent::Button(ButtonAction::PreviousPattern));
    assert!(step.frame_changed);
    assert_eq!(step.switched_to.unwrap().name, "White");
}

#[test]
fn apply_action_selects_the_named_pattern() {
    let mut lamp = LedStripPatternGenerator::new();
    assert_eq!(lamp.apply_action(ButtonAction::PreviousPattern).kind, PatternKind::White);
    assert_eq!(lamp.apply_action(ButtonAction::NextPattern).kind, PatternKind::BrandColors);
    assert_eq!(lamp.apply_action(ButtonAction::NextPattern).kind, PatternKind::Rainbow);
    assert_eq!(
        lamp.apply_action(ButtonAction::ResetToDefaultPattern).kind,
        PatternKind::BrandColors
    );
}
