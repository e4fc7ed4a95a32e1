use dpc_lib::decimal::decimal_string;
use dpc_lib::decimal::div_round_half_even;
use dpc_lib::decimal::fixed_string;
use dpc_lib::decimal::push_signed_fixed;
use dpc_lib::sorting::sort_boxes;
use dpc_lib::sorting::sort_numbers;
use dpc_lib::geometry::BoundingBox;
use dpc_lib::text::chars_of;
use dpc_lib::text::has_visible_text;
use dpc_lib::text::str_eq_ignore_case;
use dpc_lib::text::trim_bounds;

fn signed(micros: i128, places: u32) -> String {
    let mut out = String::from("x=");
    push_signed_fixed(&mut out, micros, places);
    out
}

#[test]
fn whole_numbers_print_without_leading_zeros() {
    assert_eq!(decimal_string(0), "0");
    assert_eq!(decimal_string(7), "7");
    assert_eq!(decimal_string(10), "10");
    assert_eq!(decimal_string(1_234_567_890), "1234567890");
    assert_eq!(decimal_string(u128::MAX), "340282366920938463463374607431768211455");
}

#[test]
fn fixed_point_prints_with_the_places_asked_for() {
    assert_eq!(fixed_string(0, 0), "0");
    assert_eq!(fixed_string(0, 2), "0.00");
    assert_eq!(fixed_string(900_000, 2), "0.90");
    assert_eq!(fixed_string(950_000, 3), "0.950");
    assert_eq!(fixed_string(96_000_000, 1), "96.0");
    assert_eq!(fixed_string(1_234_567, 6), "1.234567");
    assert_eq!(fixed_string(12_003_400, 4), "12.0034");
}

#[test]
fn fixed_point_rounds_ties_to_even() {
    assert_eq!(fixed_string(12_500_000, 0), "12");
    assert_eq!(fixed_string(13_500_000, 0), "14");
    assert_eq!(fixed_string(12_500_001, 0), "13");
    assert_eq!(fixed_string(250_000, 1), "0.2");
    assert_eq!(fixed_string(350_000, 1), "0.4");
    assert_eq!(fixed_string(999_500, 3), "1.000");
    assert_eq!(fixed_string(994_999, 2), "0.99");
    assert_eq!(fixed_string(995_000, 2), "1.00");
    assert_eq!(fixed_string(985_000, 2), "0.98");
    assert_eq!(div_round_half_even(5, 2), 2);
    assert_eq!(div_round_half_even(7, 2), 4);
    assert_eq!(div_round_half_even(u128::MAX, 1), u128::MAX);
}

#[test]
fn negative_quantities_carry_a_sign() {
    assert_eq!(signed(-1_500_000, 1), "x=-1.5");
    assert_eq!(signed(-40_000, 1), "x=-0.0");
    assert_eq!(signed(0, 1), "x=0.0");
    assert_eq!(signed(2_000_000, 0), "x=2");
}

#[test]
fn numbers_sort_ascending_with_duplicates() {
    assert_eq!(sort_numbers(&vec![3, -1, 3, 0, i64::MIN, i64::MAX]), vec![i64::MIN, -1, 0, 3, 3, i64::MAX]);
    assert_eq!(sort_numbers(&Vec::new()), Vec::<i64>::new());
}

#[test]
fn boxes_sort_in_reading_order_and_keep_ties_in_place() {
    let b = |x: i64, y: i64, width: i64| BoundingBox { x, y, width, height: 1 };
    let sorted = sort_boxes(&vec![b(5, 2, 1), b(1, 2, 2), b(9, 1, 3), b(1, 2, 4), b(0, 3, 5)]);
    let widths: Vec<i64> = sorted.iter().map(|r| r.width).collect();
    assert_eq!(widths, vec![3, 2, 4, 1, 5]);
}

#[test]
fn text_helpers_agree_with_std() {
    let s = " \u{3000}Grüße, Welt\t\n";
    let v = chars_of(s);
    assert_eq!(v.iter().collect::<String>(), s);
    let (a, b) = trim_bounds(&v, 0, v.len());
    assert_eq!(v[a..b].iter().collect::<String>(), s.trim());
    assert!(str_eq_ignore_case("FooBar", "fOObAR"));
    assert!(!str_eq_ignore_case("foo", "fooo"));
    assert!(!str_eq_ignore_case("ä", "Ä"));
    assert!(!has_visible_text("\u{0085}\u{1680}\u{2028}\u{205F} "));
    assert!(has_visible_text("\u{200B}"));
}
