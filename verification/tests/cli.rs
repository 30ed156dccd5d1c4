use arbor::cli::{color_override, ColorMode};

#[test]
fn color_modes() {
    assert_eq!(color_override(ColorMode::Never, false, true), Some(false));
    assert_eq!(color_override(ColorMode::Always, true, false), Some(true));
    assert_eq!(color_override(ColorMode::Auto, true, true), Some(false));
    assert_eq!(color_override(ColorMode::Auto, false, true), Some(true));
    assert_eq!(color_override(ColorMode::Auto, false, false), None);
}
