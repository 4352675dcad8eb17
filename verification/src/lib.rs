//! Core library for the devminds lamp firmware: the pattern catalogue, frame
//! rendering, the pattern selection state machine, and the decisions that the
//! firmware's button and status LED tasks make.
/// Button actions and the debounce decisions of the button tasks.
pub mod buttons;
/// Lamp state machine and pattern selection orchestration.
pub mod led_strip;
/// LED pattern definitions and frame renderers.
pub mod led_strip_patterns;
/// The level sequence of the status LED heartbeat.
pub mod status_led;
