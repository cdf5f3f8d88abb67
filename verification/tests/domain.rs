//! Tests of the value types and the small in-reach helpers.

use leviathan::engine::domain::{AccountSnapshot, Amount, Balance, MINOR_UNITS_PER_UNIT};
use leviathan::error_handler::LoggingErrorHandler;
use leviathan::listener::StatefulListener;

#[test]
fn balance_new_holds_nothing() {
    let balance = Balance::new(Amount { units: 123456 });
    assert_eq!(balance.available, 123456);
    assert_eq!(balance.held, 0);
}

#[test]
fn balance_default_is_empty() {
    let balance = Balance::default();
    assert_eq!(balance, Balance { available: 0, held: 0 });
}

#[test]
fn one_whole_unit_is_ten_thousand_minor_units() {
    assert_eq!(MINOR_UNITS_PER_UNIT, 10_000);
}

#[test]
fn rescaling_to_four_decimal_places_is_exact() {
    // 55467.44 given as mantissa 5546744 at scale 2.
    assert_eq!(Amount::from_decimal_parts(5546744, 2), Some(Amount { units: 554674400 }));
    // 12.3456 at scale 4 is already in minor units.
    assert_eq!(Amount::from_decimal_parts(123456, 4), Some(Amount { units: 123456 }));
    // A whole number scales up by ten thousand.
    assert_eq!(Amount::from_decimal_parts(12, 0), Some(Amount { units: 120000 }));
    // Trailing zeros beyond four places divide away exactly.
    assert_eq!(Amount::from_decimal_parts(1234560, 5), Some(Amount { units: 123456 }));
    assert_eq!(Amount::from_decimal_parts(0, 28), Some(Amount { units: 0 }));
}

#[test]
fn rescaling_rejects_values_without_exact_representation() {
    // 0.00005 needs a fifth decimal place.
    assert_eq!(Amount::from_decimal_parts(5, 5), None);
    // Larger than any u64 count of minor units.
    assert_eq!(Amount::from_decimal_parts(u64::MAX as u128 + 1, 4), None);
    assert_eq!(Amount::from_decimal_parts(u64::MAX as u128, 0), None);
}

#[test]
fn snapshots_compare_by_fields() {
    let a = AccountSnapshot { client_id: 1, available: 2, held: 3, total: 5, locked: false };
    let b = AccountSnapshot { client_id: 1, available: 2, held: 3, total: 5, locked: false };
    assert_eq!(a, b);
    assert_ne!(a, AccountSnapshot { locked: true, ..b });
}

#[test]
fn logging_error_handler_keeps_its_text() {
    let handler = LoggingErrorHandler::with_custom_text("An error from the update listener".to_owned());
    assert_eq!(handler.text, "An error from the update listener");
    let default_handler = LoggingErrorHandler::new();
    assert_eq!(default_handler.text, "Error");
}

#[test]
fn stateful_listener_keeps_state_and_stream() {
    let listener = StatefulListener::new(41_u32, "open");
    assert_eq!(listener.state, 41);
    assert_eq!(listener.stream, "open");
}
