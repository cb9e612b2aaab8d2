use configservice::i32_string;
use configservice::id_detail_string;

#[test]
fn decimal_rendering_of_small_numbers() {
    assert_eq!(i32_string(0), "0");
    assert_eq!(i32_string(7), "7");
    assert_eq!(i32_string(10), "10");
    assert_eq!(i32_string(42), "42");
    assert_eq!(i32_string(100), "100");
}

#[test]
fn decimal_rendering_of_negative_numbers() {
    assert_eq!(i32_string(-1), "-1");
    assert_eq!(i32_string(-99), "-99");
}

#[test]
fn decimal_rendering_of_extremes() {
    assert_eq!(i32_string(i32::MAX), "2147483647");
    assert_eq!(i32_string(i32::MIN), "-2147483648");
}

#[test]
fn detail_string_names_the_id() {
    assert_eq!(id_detail_string(1), "id = 1");
    assert_eq!(id_detail_string(99), "id = 99");
    assert_eq!(id_detail_string(-3), "id = -3");
}
