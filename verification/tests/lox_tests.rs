use skib::lox::{dec_string, error};

#[test]
fn error_line_has_the_fixed_wording() {
    assert_eq!(error(3, "Unexpected Character."), "[line 3] Error: Unexpected Character. ");
}

#[test]
fn error_line_renders_multi_digit_line_numbers() {
    assert_eq!(error(1204, "Unterminated string."), "[line 1204] Error: Unterminated string. ");
}

#[test]
fn decimal_rendering_is_exact() {
    assert_eq!(dec_string(0), "0");
    assert_eq!(dec_string(7), "7");
    assert_eq!(dec_string(10), "10");
    assert_eq!(dec_string(90210), "90210");
}
