use lastfinance::{PersistentData, amount_to_display, cents_text, i64_to_string};

#[test]
fn integers_render_in_decimal() {
    assert_eq!(i64_to_string(0), "0");
    assert_eq!(i64_to_string(7), "7");
    assert_eq!(i64_to_string(12345), "12345");
    assert_eq!(i64_to_string(-123), "-123");
    assert_eq!(i64_to_string(i64::MIN), "-9223372036854775808");
    assert_eq!(i64_to_string(i64::MAX), "9223372036854775807");
}

#[test]
fn cents_render_as_dollars_with_two_places() {
    assert_eq!(cents_text(-11734), "-117.34");
    assert_eq!(cents_text(64860), "648.60");
    assert_eq!(cents_text(5), "0.05");
    assert_eq!(cents_text(0), "0.00");
    assert_eq!(cents_text(-100), "-1.00");
    assert_eq!(cents_text(250), "2.50");
}

#[test]
fn amounts_display_as_grouped_whole_dollars() {
    assert_eq!(amount_to_display(123456), "$1,234");
    assert_eq!(amount_to_display(-123456), "$-1,234");
    assert_eq!(amount_to_display(99), "$0");
    assert_eq!(amount_to_display(1234567890), "$12,345,678");
}

#[test]
fn empty_settings_remember_no_database() {
    let settings = PersistentData::new_empty();
    assert_eq!(settings.last_db_path, "");
}
