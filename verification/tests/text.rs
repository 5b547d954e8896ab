use lumen::beacons::Progress;
use lumen::text::{decimal_string, objective_text};

#[test]
fn numbers_are_written_in_decimal() {
    assert_eq!(decimal_string(0), "0");
    assert_eq!(decimal_string(7), "7");
    assert_eq!(decimal_string(10), "10");
    assert_eq!(decimal_string(1234), "1234");
    assert_eq!(decimal_string(u32::MAX), u32::MAX.to_string());
}

#[test]
fn objective_counts_lit_out_of_total() {
    assert_eq!(objective_text(&Progress { lit: 0, total: 0 }), "Shrines 0 / 0");
    assert_eq!(objective_text(&Progress { lit: 3, total: 12 }), "Shrines 3 / 12");
}

#[test]
fn objective_announces_completion() {
    assert_eq!(objective_text(&Progress { lit: 12, total: 12 }), "All 12 shrines rekindled!");
    assert_eq!(objective_text(&Progress { lit: 13, total: 12 }), "All 12 shrines rekindled!");
}
