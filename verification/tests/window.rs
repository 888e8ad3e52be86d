use tgx::gui::window::{other_theme, panic_message, Activity, TITLE};

#[test]
fn a_panic_before_the_window_opens_blames_the_graphics_stack() {
    let message = panic_message(false, "boom");
    assert!(message.contains("could not start"));
    assert!(message.contains("graphics drivers"));
}

#[test]
fn a_panic_after_the_window_opened_does_not_blame_the_graphics_stack() {
    let message = panic_message(true, "boom");
    assert!(!message.contains("graphics drivers"));
    assert!(message.contains("stopped unexpectedly"));
    assert!(message.contains("unaffected"));
}

#[test]
fn the_panic_message_names_the_app_and_the_panic() {
    assert_eq!(
        panic_message(false, "boom"),
        format!("{TITLE} could not start: boom\nThis build draws with OpenGL and needs working graphics drivers.")
    );
}

#[test]
fn anything_that_is_not_light_switches_to_light() {
    assert_eq!(other_theme("light"), "dark");
    assert_eq!(other_theme("dark"), "light");
    assert_eq!(other_theme("Light"), "light");
    assert_eq!(other_theme(""), "light");
    assert_eq!(other_theme("chartreuse"), "light");
    // The pair round-trips, or the chip toggles nothing.
    assert_eq!(other_theme(other_theme("dark")), "dark");
    assert_ne!(Activity::Export, Activity::SignIn);
}
